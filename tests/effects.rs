use pico_matrix::effects::{Image16x16Sequence, Meteors, Orbs, SequenceError};

fn two_frames() -> Vec<u8> {
    let mut bytes = vec![0u8; 1536];
    for b in &mut bytes[768..] {
        *b = 1;
    }
    bytes[0] = 9;
    bytes
}

#[test]
fn empty_blob_is_rejected() {
    assert_eq!(Image16x16Sequence::from_bytes_rgb(&[]).err(), Some(SequenceError::Empty));
}

#[test]
fn partial_frame_blob_is_rejected() {
    let bytes = vec![0u8; 1000];
    assert_eq!(Image16x16Sequence::from_bytes_rgb(&bytes).err(), Some(SequenceError::PartialFrame));
    let bytes = vec![0u8; 767];
    assert_eq!(Image16x16Sequence::from_bytes_rgb(&bytes).err(), Some(SequenceError::PartialFrame));
}

#[test]
fn two_frame_blob_selects_by_whole_seconds() {
    let seq = Image16x16Sequence::from_bytes_rgb(&two_frames()).unwrap();
    assert_eq!(seq.get_frame_count(), 2);
    let mut canvas = [7u8; 768];
    seq.process(&mut canvas, 500_000);
    assert_eq!(canvas[0], 9);
    assert!(canvas[1..].iter().all(|&v| v == 0));
    seq.process(&mut canvas, 1_900_000);
    assert!(canvas.iter().all(|&v| v == 1));
    seq.process(&mut canvas, 2_500_000);
    assert_eq!(canvas[0], 9);
    seq.process(&mut canvas, 0);
    assert_eq!(canvas[0], 9);
}

#[test]
fn single_frame_sequence_always_shows_it() {
    let bytes: Vec<u8> = (0..768).map(|i| (i % 251) as u8).collect();
    let seq = Image16x16Sequence::from_bytes_rgb(&bytes).unwrap();
    assert_eq!(seq.get_frame_count(), 1);
    let mut canvas = [0u8; 768];
    seq.process(&mut canvas, 123_456_789);
    assert_eq!(&canvas[..], &bytes[..]);
}

fn orb_centers() -> [(i32, i32); 4] {
    [(1, 8), (14, 8), (10, 5), (5, 10)]
}

#[test]
fn orbs_repeat_for_same_centres() {
    let orbs = Orbs::new();
    let mut a = [100u8; 768];
    let mut b = [100u8; 768];
    orbs.process(&mut a, &orb_centers());
    orbs.process(&mut b, &orb_centers());
    assert_eq!(a, b);
}

#[test]
fn orbs_fade_then_draw() {
    let orbs = Orbs::new();
    let mut canvas = [100u8; 768];
    orbs.process(&mut canvas, &orb_centers());
    // an untouched pixel is faded by (12, 24, 12)
    assert_eq!(&canvas[0..3], &[88, 76, 88]);
    // the last circle is drawn last, in violet
    let o = (10 * 16 + 5) * 3;
    assert_eq!(&canvas[o..o + 3], &[0xaa, 0x00, 0xff]);
    // the first circle in cyan
    let o = (8 * 16 + 1) * 3;
    assert_eq!(&canvas[o..o + 3], &[0x00, 0xff, 0xff]);
}

#[test]
fn meteors_start_on_matrix() {
    let m = Meteors::new();
    for (x, y) in m.positions() {
        assert!((0..16000).contains(&x));
        assert!((0..16000).contains(&y));
    }
}

#[test]
fn meteors_step_draws_then_moves() {
    let mut m = Meteors::new();
    let before = m.positions();
    let mut canvas = [50u8; 768];
    let falls = [1000i32; 12];
    let drifts = [2000i32; 12];
    m.step(&mut canvas, &falls, &drifts);
    for (x, y) in before {
        let o = (((y / 1000) * 16 + x / 1000) * 3) as usize;
        assert_eq!(&canvas[o..o + 3], &[0xff, 0xa0, 0x00]);
    }
    let after = m.positions();
    for i in 0..12 {
        let (x, y) = before[i];
        if y - 1000 < 0 {
            let mut nx = x - 2000;
            if nx < 0 {
                nx += 16000;
            }
            assert_eq!(after[i], (nx, 15999));
        } else {
            assert_eq!(after[i], (x, y - 1000));
        }
    }
}

#[test]
fn meteors_process_keeps_particles_on_matrix() {
    let mut m = Meteors::new();
    let mut canvas = [0u8; 768];
    for _ in 0..200 {
        m.process(&mut canvas);
        for (x, y) in m.positions() {
            assert!((0..16000).contains(&x));
            assert!((0..16000).contains(&y));
        }
    }
}
