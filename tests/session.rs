use pico_matrix::effects::Image16x16Sequence;
use pico_matrix::session::{
    address_of, check_ack, flash_play_packet, flash_write_packet, is_ack, is_overrun, pacing_delay_us, scan_after,
    scan_start, FrameClock, ProtocolError, ScanAction,
};

fn run_scan(reachable: &[u8]) -> (Vec<u8>, Option<u8>) {
    let mut tried = Vec::new();
    let mut action = scan_start();
    loop {
        match action {
            ScanAction::Attempt(h) => {
                tried.push(h);
                action = scan_after(h, reachable.contains(&h));
            }
            ScanAction::Found(h) => return (tried, Some(h)),
            ScanAction::Exhausted => return (tried, None),
        }
    }
}

#[test]
fn scan_with_no_host_tries_every_address_then_fails() {
    let (tried, found) = run_scan(&[]);
    assert_eq!(found, None);
    assert_eq!(tried, (2u8..=255).collect::<Vec<u8>>());
}

#[test]
fn scan_stops_at_third_address() {
    let (tried, found) = run_scan(&[4, 5]);
    assert_eq!(found, Some(4));
    assert_eq!(tried, vec![2, 3, 4]);
}

#[test]
fn scan_addresses_are_on_local_subnet() {
    assert_eq!(address_of(2), [192, 168, 1, 2]);
    assert_eq!(address_of(255), [192, 168, 1, 255]);
}

#[test]
fn ack_is_accepted() {
    let buf = [b'A', b'C', b'K', 0, 0, 0, 0, 0];
    assert!(is_ack(&buf));
    assert_eq!(check_ack(&buf, 8), Ok(()));
}

#[test]
fn other_replies_are_protocol_violations() {
    assert_eq!(check_ack(&[0u8; 8], 8), Err(ProtocolError::BadAck));
    assert_eq!(check_ack(&[b'N', b'A', b'K', 0, 0, 0, 0, 0], 8), Err(ProtocolError::BadAck));
    assert_eq!(check_ack(&[b'A', b'C', b'K', 0, 0, 0, 0, 1], 8), Err(ProtocolError::BadAck));
    assert_eq!(check_ack(&[b'A', b'C', b'K', 0, 0, 0, 0, 0], 3), Err(ProtocolError::ShortRead));
    assert_eq!(check_ack(&[b'A', b'C', b'K', 0, 0, 0, 0, 0], 0), Err(ProtocolError::ShortRead));
    assert!(!is_ack(&[b'A', b'C', b'K']));
}

#[test]
fn pacing_fills_the_period() {
    assert_eq!(pacing_delay_us(0), 33_300);
    assert_eq!(pacing_delay_us(10_000), 23_300);
    assert_eq!(pacing_delay_us(33_300), 0);
    assert_eq!(pacing_delay_us(50_000), 0);
    assert!(is_overrun(40_000));
    assert!(!is_overrun(33_300));
}

#[test]
fn clock_advances_by_exact_period() {
    let mut clock = FrameClock::new();
    assert_eq!(clock.time_us(), 0);
    assert_eq!(clock.tick(5_000), 28_300);
    assert_eq!(clock.tick(90_000), 0);
    assert_eq!(clock.time_us(), 66_600);
    assert!(clock.can_tick());
}

#[test]
fn flash_packets_cover_the_sequence() {
    let mut bytes = vec![0u8; 3 * 768];
    bytes[768] = 5;
    bytes[2 * 768 + 767] = 6;
    let seq = Image16x16Sequence::from_bytes_rgb(&bytes).unwrap();
    let second = flash_write_packet(&seq, 1).to_bytes();
    assert_eq!(&second[0..4], &[0x03, 0x00, 0x01, 0x00]);
    assert_eq!(&second[4..], &bytes[768..1536]);
    let third = flash_write_packet(&seq, 2).to_bytes();
    assert_eq!(third[771], 6);
    assert_eq!(flash_play_packet(&seq).to_bytes(), vec![0x04, 0x00, 0x00, 0x00, 0x02, 0x00, 100, 0x00]);
}
