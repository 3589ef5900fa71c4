use vstd::prelude::*;

verus! {

/// Tag of a packet that carries a whole frame, eight bits per channel.
pub const DATA_TYPE_FULL: u8 = 0x01;

/// Tag of a packet that carries a whole frame, four bits per channel.
pub const DATA_TYPE_HALF: u8 = 0x02;

/// Tag of a packet that stores one frame in the device's flash.
pub const DATA_TYPE_WRITE_FLASH: u8 = 0x03;

/// Tag of a packet that starts playback of frames stored in flash.
pub const DATA_TYPE_PLAY_FLASH: u8 = 0x04;

/// The two bytes of `v`, least significant first.
pub open spec fn le16(v: u16) -> Seq<u8> {
    seq![(v % 256) as u8, (v / 256) as u8]
}

/// The top four bits of a channel value.
pub open spec fn nibble(v: u8) -> u8 {
    v >> 4u8
}

/// One byte holding two quantised channels: `hi` in the upper half.
pub open spec fn pack_nibbles(hi: u8, lo: u8) -> u8 {
    (nibble(hi) << 4u8) | nibble(lo)
}

/// The half-size payload of a frame: every byte packs two consecutive
/// channel values, so each pair of pixels fills three bytes.
pub open spec fn half_packed(c: Seq<u8>) -> Seq<u8> {
    Seq::new(384, |k: int| pack_nibbles(c[2 * k], c[2 * k + 1]))
}

/// A frame sent as it is. Each packet kind is told apart on the wire by
/// its leading tag byte.
pub struct Full {
    data: [u8; 768],
}

/// A frame quantised to four bits per channel.
pub struct Half {
    data: [u8; 384],
}

/// One frame to be stored at a numbered slot of the device's flash.
pub struct WriteFlash {
    frame_idx: u16,
    data: [u8; 768],
}

/// A request to play the stored frames `begin..=end`, one every
/// `time_interval_ms` milliseconds.
pub struct PlayFlash {
    begin_frame_idx_inclusive: u16,
    end_frame_idx_inclusive: u16,
    time_interval_ms: u16,
}

impl View for Full {
    type V = Seq<u8>;

    /// The frame carried.
    closed spec fn view(&self) -> Seq<u8> {
        self.data@
    }
}

impl View for Half {
    type V = Seq<u8>;

    /// The packed payload.
    closed spec fn view(&self) -> Seq<u8> {
        self.data@
    }
}

impl View for WriteFlash {
    type V = (u16, Seq<u8>);

    /// The slot and the frame carried.
    closed spec fn view(&self) -> (u16, Seq<u8>) {
        (self.frame_idx, self.data@)
    }
}

impl View for PlayFlash {
    type V = (u16, u16, u16);

    /// First slot, last slot and interval in milliseconds.
    closed spec fn view(&self) -> (u16, u16, u16) {
        (self.begin_frame_idx_inclusive, self.end_frame_idx_inclusive, self.time_interval_ms)
    }
}

/// Appends the two bytes of `v`, least significant first.
fn push_le16(out: &mut Vec<u8>, v: u16)
    ensures
        final(out)@ == old(out)@ + le16(v),
{
    out.push((v % 256) as u8);
    out.push((v / 256) as u8);
    assert(final(out)@ =~= old(out)@ + le16(v));
}

/// Appends every byte of `data`.
pub(crate) fn push_all(out: &mut Vec<u8>, data: &[u8])
    ensures
        final(out)@ == old(out)@ + data@,
{
    let ghost start = out@;
    let mut i: usize = 0;
    while i < data.len()
        invariant
            0 <= i <= data@.len(),
            out@ == start + data@.subrange(0, i as int),
        decreases data@.len() - i,
    {
        out.push(data[i]);
        i = i + 1;
        assert(out@ =~= start + data@.subrange(0, i as int));
    }
    assert(data@.subrange(0, i as int) =~= data@);
}

impl Full {
    /// Wraps a copy of the frame, without loss.
    pub fn new(canvas: &[u8; 768]) -> (p: Full)
        ensures
            p@ == canvas@,
    {
        Full { data: *canvas }
    }

    /// The packet on the wire: its tag, then the 768 channel bytes.
    pub fn to_bytes(&self) -> (r: Vec<u8>)
        ensures
            r@ == seq![DATA_TYPE_FULL] + self@,
    {
        let mut out: Vec<u8> = Vec::new();
        out.push(DATA_TYPE_FULL);
        push_all(&mut out, self.data.as_slice());
        out
    }
}

impl Half {
    /// Quantises every channel to its top four bits and packs two channels
    /// per byte: for a pixel at an even index, `R0 G0 B0`, and the next,
    /// `R1 G1 B1`, the bytes are `R0 G0`, `B0 R1`, `G1 B1`. The low bits are
    /// lost.
    pub fn new(canvas: &[u8; 768]) -> (p: Half)
        ensures
            p@ == half_packed(canvas@),
    {
        let mut data = [0u8; 384];
        let mut k: usize = 0;
        while k < 384
            invariant
                0 <= k <= 384,
                canvas@.len() == 768,
                data@.len() == 384,
                forall|j: int| 0 <= j < k ==> data@[j] == pack_nibbles(canvas@[2 * j], canvas@[2 * j + 1]),
            decreases 384 - k,
        {
            let hi = canvas[2 * k];
            let lo = canvas[2 * k + 1];
            data[k] = ((hi >> 4u8) << 4u8) | (lo >> 4u8);
            k = k + 1;
        }
        let p = Half { data };
        assert(p.data@ =~= half_packed(canvas@));
        p
    }

    /// The packet on the wire: its tag, then the 384 packed bytes.
    pub fn to_bytes(&self) -> (r: Vec<u8>)
        ensures
            r@ == seq![DATA_TYPE_HALF] + self@,
    {
        let mut out: Vec<u8> = Vec::new();
        out.push(DATA_TYPE_HALF);
        push_all(&mut out, self.data.as_slice());
        out
    }
}

impl WriteFlash {
    /// Wraps a copy of the frame for flash slot `frame_idx`.
    pub fn new(frame_idx: u16, canvas: &[u8; 768]) -> (p: WriteFlash)
        ensures
            p@ == (frame_idx, canvas@),
    {
        WriteFlash { frame_idx, data: *canvas }
    }

    /// The packet on the wire: its tag, one byte of alignment padding, the
    /// slot as two bytes little-endian, then the 768 channel bytes.
    pub fn to_bytes(&self) -> (r: Vec<u8>)
        ensures
            r@ == seq![DATA_TYPE_WRITE_FLASH, 0u8] + le16(self@.0) + self@.1,
    {
        let mut out: Vec<u8> = Vec::new();
        out.push(DATA_TYPE_WRITE_FLASH);
        out.push(0u8);
        push_le16(&mut out, self.frame_idx);
        push_all(&mut out, self.data.as_slice());
        assert(out@ =~= seq![DATA_TYPE_WRITE_FLASH, 0u8] + le16(self@.0) + self@.1);
        out
    }
}

impl PlayFlash {
    /// A request to play stored frames `begin..=end` at the given interval.
    pub fn new(begin_frame_idx_inclusive: u16, end_frame_idx_inclusive: u16, time_interval_ms: u16) -> (p: PlayFlash)
        ensures
            p@ == (begin_frame_idx_inclusive, end_frame_idx_inclusive, time_interval_ms),
    {
        PlayFlash {
            begin_frame_idx_inclusive,
            end_frame_idx_inclusive,
            time_interval_ms,
        }
    }

    /// The packet on the wire: its tag, one byte of alignment padding, then
    /// the three fields as two bytes each, little-endian.
    pub fn to_bytes(&self) -> (r: Vec<u8>)
        ensures
            r@ == seq![DATA_TYPE_PLAY_FLASH, 0u8] + le16(self@.0) + le16(self@.1) + le16(self@.2),
    {
        let mut out: Vec<u8> = Vec::new();
        out.push(DATA_TYPE_PLAY_FLASH);
        out.push(0u8);
        push_le16(&mut out, self.begin_frame_idx_inclusive);
        push_le16(&mut out, self.end_frame_idx_inclusive);
        push_le16(&mut out, self.time_interval_ms);
        assert(out@ =~= seq![DATA_TYPE_PLAY_FLASH, 0u8] + le16(self@.0) + le16(self@.1) + le16(self@.2));
        out
    }
}

/// The pixel-pair layout of the half payload: for the pair of pixels that
/// starts at even pixel `2 * q`, with channels `R0 G0 B0` and `R1 G1 B1`, the
/// three bytes at `3 * q` are `R0 G0`, `B0 R1` and `G1 B1`, one quantised
/// channel per half byte.
pub proof fn lemma_half_pair_layout(c: Seq<u8>, q: int)
    requires
        c.len() == 768,
        0 <= q < 128,
    ensures
        half_packed(c)[3 * q] == pack_nibbles(c[6 * q], c[6 * q + 1]),
        half_packed(c)[3 * q + 1] == pack_nibbles(c[6 * q + 2], c[6 * q + 3]),
        half_packed(c)[3 * q + 2] == pack_nibbles(c[6 * q + 4], c[6 * q + 5]),
{
    assert(2 * (3 * q) == 6 * q);
    assert(2 * (3 * q + 1) == 6 * q + 2);
    assert(2 * (3 * q + 2) == 6 * q + 4);
}

/// Half encoding is a function of the frame: encoding equal frames, for
/// instance the same frame twice, gives byte-identical payloads.
pub proof fn lemma_half_deterministic(a: Seq<u8>, b: Seq<u8>)
    requires
        a.len() == 768,
        a == b,
    ensures
        half_packed(a) == half_packed(b),
{
}

/// Half encoding loses the low four bits: changing a channel's low bits
/// leaves the payload as it was, so distinct frames can share a payload.
pub proof fn lemma_half_lossy(c: Seq<u8>, i: int, v: u8)
    requires
        c.len() == 768,
        0 <= i < 768,
        nibble(v) == nibble(c[i]),
    ensures
        half_packed(c.update(i, v)) == half_packed(c),
{
    let d = c.update(i, v);
    assert forall|k: int| 0 <= k < 384 implies #[trigger] half_packed(d)[k] == half_packed(c)[k] by {
        if 2 * k == i {
            assert(nibble(d[2 * k]) == nibble(c[2 * k]));
        } else if 2 * k + 1 == i {
            assert(nibble(d[2 * k + 1]) == nibble(c[2 * k + 1]));
        }
    }
    assert(half_packed(d) =~= half_packed(c));
}

} // verus!
