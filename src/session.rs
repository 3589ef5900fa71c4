use vstd::prelude::*;

use crate::effects::{frame_index_at, frame_of, Image16x16Sequence, MICROS_PER_SECOND};
use crate::packet::{PlayFlash, WriteFlash};

verus! {

/// TCP port the display listens on.
pub const PICO_PORT: u16 = 4242;

/// First and last host number tried on the local subnet.
pub const FIRST_HOST: u8 = 2;
pub const LAST_HOST: u8 = 255;

/// How long one connection attempt may take, in milliseconds.
pub const CONNECT_TIMEOUT_MS: u64 = 1000;

/// How long to wait for an acknowledgement, in seconds.
pub const READ_TIMEOUT_S: u64 = 8;

/// Length of an acknowledgement.
pub const ACK_LEN: usize = 8;

/// Target time between two frames, in microseconds (about 30 per second).
pub const FRAME_PERIOD_US: u64 = 33_300;

/// Interval between frames when the device plays its flash, in milliseconds.
pub const FLASH_INTERVAL_MS: u16 = 100;

/// The four bytes of the address of host `host` on the display's subnet.
pub open spec fn host_address(host: u8) -> Seq<u8> {
    seq![192u8, 168u8, 1u8, host]
}

/// The address of host `host` on the display's subnet.
pub fn address_of(host: u8) -> (r: [u8; 4])
    ensures
        r@ == host_address(host),
{
    let r = [192u8, 168u8, 1u8, host];
    assert(r@ =~= host_address(host));
    r
}

/// What the discovery scan does next.
#[derive(Debug, Clone, Copy, PartialEq, Eq, Structural)]
pub enum ScanAction {
    /// Try to connect to this host.
    Attempt(u8),
    /// The display answered on this host: stop scanning.
    Found(u8),
    /// Every host was tried and none answered.
    Exhausted,
}

/// The scan's decision once `host` has been tried: the first host that
/// answers wins; otherwise the next host, until the last has failed.
pub open spec fn scan_next(host: u8, connected: bool) -> ScanAction {
    if connected {
        ScanAction::Found(host)
    } else if host >= 255 {
        ScanAction::Exhausted
    } else {
        ScanAction::Attempt((host + 1) as u8)
    }
}

/// The scan's first step: try the first host of the range.
pub fn scan_start() -> (r: ScanAction)
    ensures
        r == ScanAction::Attempt(2),
{
    ScanAction::Attempt(FIRST_HOST)
}

/// The scan's step after trying `host`, given whether it answered.
pub fn scan_after(host: u8, connected: bool) -> (r: ScanAction)
    ensures
        r == scan_next(host, connected),
{
    if connected {
        ScanAction::Found(host)
    } else if host == LAST_HOST {
        ScanAction::Exhausted
    } else {
        ScanAction::Attempt(host + 1)
    }
}

/// A whole scan from `host` on, where exactly the hosts in `reachable`
/// answer: the hosts tried, in order, and the one found, if any.
pub open spec fn scan_from(host: int, reachable: Set<u8>) -> (Seq<u8>, Option<u8>)
    decreases 256 - host,
{
    if host < 2 || host > 255 {
        (Seq::empty(), None)
    } else {
        let h = host as u8;
        match scan_next(h, reachable.contains(h)) {
            ScanAction::Found(f) => (seq![h], Some(f)),
            ScanAction::Exhausted => (seq![h], None),
            ScanAction::Attempt(n) => {
                let rest = scan_from(n as int, reachable);
                (seq![h] + rest.0, rest.1)
            },
        }
    }
}

/// A scan where no host answers tries every host from `host` to 255, in
/// order, and fails.
pub proof fn lemma_scan_unreachable_from(host: int)
    requires
        2 <= host <= 255,
    ensures
        scan_from(host, Set::empty()) == (Seq::new((256 - host) as nat, |i: int| (host + i) as u8), None::<u8>),
    decreases 256 - host,
{
    if host < 255 {
        lemma_scan_unreachable_from(host + 1);
        let rest = scan_from(host + 1, Set::empty());
        assert(seq![host as u8] + rest.0 =~= Seq::new((256 - host) as nat, |i: int| (host + i) as u8));
    } else {
        assert(seq![host as u8] =~= Seq::new((256 - host) as nat, |i: int| (host + i) as u8));
    }
}

/// A scan over a subnet where no host answers tries every address of the
/// range, 2 to 255, once each and in order, and then fails.
pub proof fn lemma_scan_unreachable()
    ensures
        scan_from(2, Set::empty()).1 is None,
        scan_from(2, Set::empty()).0 == Seq::new(254, |i: int| (i + 2) as u8),
{
    lemma_scan_unreachable_from(2);
    assert(Seq::new((256 - 2) as nat, |i: int| (2 + i) as u8) =~= Seq::new(254, |i: int| (i + 2) as u8));
}

/// A scan stops at the first host that answers: where the third address
/// answers and the two before it do not, exactly three are tried and the
/// fourth never is.
pub proof fn lemma_scan_stops_at_third(reachable: Set<u8>)
    requires
        !reachable.contains(2u8),
        !reachable.contains(3u8),
        reachable.contains(4u8),
    ensures
        scan_from(2, reachable) == (seq![2u8, 3u8, 4u8], Some(4u8)),
{
    assert(scan_from(4, reachable) == (seq![4u8], Some(4u8)));
    assert(scan_from(3, reachable).0 =~= seq![3u8, 4u8]);
    assert(scan_from(2, reachable).0 =~= seq![2u8, 3u8, 4u8]);
}

/// Why a send/acknowledge cycle failed.
#[derive(Debug, Clone, Copy, PartialEq, Eq, Structural)]
pub enum ProtocolError {
    /// Fewer than eight bytes came back.
    ShortRead,
    /// Eight bytes came back, but not `ACK` and five zero bytes.
    BadAck,
}

/// The only valid acknowledgement: `ACK` and five zero bytes.
pub open spec fn ack_bytes() -> Seq<u8> {
    seq![0x41u8, 0x43u8, 0x4bu8, 0u8, 0u8, 0u8, 0u8, 0u8]
}

/// Whether `buf` is exactly the acknowledgement.
pub fn is_ack(buf: &[u8]) -> (r: bool)
    ensures
        r == (buf@ == ack_bytes()),
{
    if buf.len() != ACK_LEN {
        return false;
    }
    let ok = buf[0] == 0x41u8 && buf[1] == 0x43u8 && buf[2] == 0x4bu8 && buf[3] == 0u8 && buf[4] == 0u8
        && buf[5] == 0u8 && buf[6] == 0u8 && buf[7] == 0u8;
    if ok {
        assert(buf@ =~= ack_bytes());
    } else {
        assert(buf@ != ack_bytes()) by {
            if buf@ == ack_bytes() {
                assert(buf@[0] == 0x41u8 && buf@[1] == 0x43u8 && buf@[2] == 0x4bu8);
            }
        }
    }
    ok
}

/// Judges the reply to one packet: `n_read` bytes were read into `buf`.
/// The cycle succeeds only on a full read of the acknowledgement.
pub fn check_ack(buf: &[u8; 8], n_read: usize) -> (r: Result<(), ProtocolError>)
    ensures
        n_read < 8 ==> r == Err::<(), ProtocolError>(ProtocolError::ShortRead),
        n_read >= 8 && buf@ != ack_bytes() ==> r == Err::<(), ProtocolError>(ProtocolError::BadAck),
        r is Ok <==> n_read >= 8 && buf@ == ack_bytes(),
{
    if n_read < ACK_LEN {
        Err(ProtocolError::ShortRead)
    } else if is_ack(buf.as_slice()) {
        Ok(())
    } else {
        Err(ProtocolError::BadAck)
    }
}

/// The steady-state pacing clock: logical time advances by exactly one
/// period per frame, whatever the wall clock did.
pub struct FrameClock {
    time_us: u64,
}

impl View for FrameClock {
    type V = nat;

    /// Logical time, in microseconds.
    closed spec fn view(&self) -> nat {
        self.time_us as nat
    }
}

impl FrameClock {
    /// A clock at logical time zero.
    pub fn new() -> (r: FrameClock)
        ensures
            r@ == 0,
    {
        FrameClock { time_us: 0 }
    }

    /// Logical time, in microseconds.
    pub fn time_us(&self) -> (r: u64)
        ensures
            r == self@,
    {
        self.time_us
    }

    /// Whether one more tick fits in the clock's range.
    pub fn can_tick(&self) -> (r: bool)
        ensures
            r == (self@ + FRAME_PERIOD_US <= u64::MAX),
    {
        self.time_us <= u64::MAX - FRAME_PERIOD_US
    }

    /// Ends one frame that took `elapsed_us` of wall-clock time: returns how
    /// long to sleep to fill the period (zero when the frame overran), and
    /// advances logical time by exactly one period.
    pub fn tick(&mut self, elapsed_us: u64) -> (sleep_us: u64)
        requires
            old(self)@ + FRAME_PERIOD_US <= u64::MAX,
        ensures
            final(self)@ == old(self)@ + FRAME_PERIOD_US,
            sleep_us == pacing_delay(elapsed_us as int),
    {
        self.time_us = self.time_us + FRAME_PERIOD_US;
        pacing_delay_us(elapsed_us)
    }
}

/// How long to sleep after a frame that took `elapsed` microseconds.
pub open spec fn pacing_delay(elapsed: int) -> int {
    if elapsed < FRAME_PERIOD_US {
        FRAME_PERIOD_US - elapsed
    } else {
        0
    }
}

/// The rest of the frame period after `elapsed_us`, or zero once it is over.
pub fn pacing_delay_us(elapsed_us: u64) -> (r: u64)
    ensures
        r == pacing_delay(elapsed_us as int),
{
    if elapsed_us < FRAME_PERIOD_US {
        FRAME_PERIOD_US - elapsed_us
    } else {
        0
    }
}

/// Whether a send/acknowledge cycle of `send_us` microseconds took longer
/// than a frame period. An overrun is reported and otherwise ignored.
pub fn is_overrun(send_us: u64) -> (r: bool)
    ensures
        r == (send_us > FRAME_PERIOD_US),
{
    send_us > FRAME_PERIOD_US
}

/// The packet that stores frame `i` of the sequence in flash slot `i`.
pub fn flash_write_packet(seq: &Image16x16Sequence, i: u16) -> (p: WriteFlash)
    requires
        (i as int) < seq@.len() / 768,
    ensures
        p@ == (i, frame_of(seq@, i as int)),
{
    let mut canvas = [0u8; 768];
    let count = seq.get_frame_count();
    assert((i as u64) * 1_000_000 <= u64::MAX) by (nonlinear_arith)
        requires
            i <= 65535,
    ;
    let t = (i as u64) * MICROS_PER_SECOND;
    seq.process(&mut canvas, t);
    proof {
        assert(t as int / 1_000_000 == i) by (nonlinear_arith)
            requires
                t == i * 1_000_000,
        ;
        assert(frame_index_at(count as int, t as int) == i as int) by (nonlinear_arith)
            requires
                t as int / 1_000_000 == i as int,
                (i as int) < count,
                count >= 1,
        ;
    }
    WriteFlash::new(i, &canvas)
}

/// The packet that plays the whole stored sequence, one frame every
/// `FLASH_INTERVAL_MS` milliseconds.
pub fn flash_play_packet(seq: &Image16x16Sequence) -> (p: PlayFlash)
    ensures
        p@ == ((0u16, (seq@.len() / 768 - 1) as u16, FLASH_INTERVAL_MS)),
{
    let count = seq.get_frame_count();
    PlayFlash::new(0, count - 1, FLASH_INTERVAL_MS)
}

} // verus!
