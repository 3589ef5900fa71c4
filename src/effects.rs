use vstd::prelude::*;

use crate::canvas::{draw_plus, fade_canvas, faded, set_pixel, with_pixel, with_plus};
use crate::packet::push_all;
use rand::Rng;

verus! {

/// Bytes in one frame of a recorded sequence.
pub const FRAME_BYTES: usize = 768;

/// Largest number of frames a sequence can hold: frame numbers travel as
/// 16-bit values.
pub const MAX_FRAMES: usize = 65535;

/// Microseconds in one second of effect time.
pub const MICROS_PER_SECOND: u64 = 1_000_000;

/// How much each channel darkens per tick in the trailing effects.
pub const FADE_R: u8 = 12;
pub const FADE_G: u8 = 24;
pub const FADE_B: u8 = 12;

/// Why a recorded sequence could not be built.
#[derive(Debug, Clone, Copy, PartialEq, Eq, Structural)]
pub enum SequenceError {
    /// The source holds no frame.
    Empty,
    /// A raw blob whose length is not a whole number of frames.
    PartialFrame,
    /// More frames than a 16-bit frame number can address.
    TooManyFrames,
    /// A source image that is not exactly 16 by 16 pixels.
    WrongSize,
    /// A source image in a container or pixel format that is not supported.
    UnsupportedFormat,
    /// The image decoder rejected the source.
    Decode,
}

/// The frame that starts at frame number `f` of `bytes`.
pub open spec fn frame_of(bytes: Seq<u8>, f: int) -> Seq<u8> {
    bytes.subrange(f * 768, f * 768 + 768)
}

/// The frame shown at `time_us`: whole seconds elapsed, modulo the count.
pub open spec fn frame_index_at(count: int, time_us: int) -> int {
    (time_us / 1_000_000) % count
}

/// Whether `bytes` is a valid sequence: at least one frame, whole frames
/// only, and no more frames than a frame number can address.
pub open spec fn valid_frames(bytes: Seq<u8>) -> bool {
    &&& bytes.len() > 0
    &&& bytes.len() % 768 == 0
    &&& bytes.len() / 768 <= 65535
}

/// A valid blob is played back whole frame by whole frame: at any time the
/// frame shown is frame `floor(seconds) mod count`, which is one of the
/// blob's frames, all 768 bytes of it.
pub proof fn lemma_playback_selects_a_frame(bytes: Seq<u8>, time_us: int)
    requires
        valid_frames(bytes),
        time_us >= 0,
    ensures
        0 <= frame_index_at((bytes.len() / 768) as int, time_us) < bytes.len() / 768,
        frame_of(bytes, frame_index_at((bytes.len() / 768) as int, time_us)).len() == 768,
{
    let n = bytes.len() / 768;
    let f = frame_index_at(n as int, time_us);
    assert(n >= 1);
    assert(0 <= f < n);
    assert(f * 768 + 768 <= n * 768) by (nonlinear_arith)
        requires
            0 <= f < n,
    ;
    assert(n * 768 == bytes.len());
}

/// An immutable list of frames played back one per second.
pub struct Image16x16Sequence {
    bytes: Vec<u8>,
}

impl View for Image16x16Sequence {
    type V = Seq<u8>;

    /// The frames, back to back, 768 bytes each.
    closed spec fn view(&self) -> Seq<u8> {
        self.bytes@
    }
}

impl Image16x16Sequence {
    #[verifier::type_invariant]
    spec fn inv(&self) -> bool {
        valid_frames(self.bytes@)
    }

    /// Builds a sequence from frames already laid out in display order.
    pub fn from_frames(bytes: Vec<u8>) -> (r: Result<Image16x16Sequence, SequenceError>)
        ensures
            bytes@.len() == 0 ==> r == Err::<Image16x16Sequence, SequenceError>(SequenceError::Empty),
            bytes@.len() > 0 && bytes@.len() % 768 != 0
                ==> r == Err::<Image16x16Sequence, SequenceError>(SequenceError::PartialFrame),
            bytes@.len() > 0 && bytes@.len() % 768 == 0 && bytes@.len() / 768 > 65535
                ==> r == Err::<Image16x16Sequence, SequenceError>(SequenceError::TooManyFrames),
            valid_frames(bytes@) <==> r is Ok,
            r is Ok ==> r->Ok_0@ == bytes@,
    {
        if bytes.len() == 0 {
            return Err(SequenceError::Empty);
        }
        if bytes.len() % FRAME_BYTES != 0 {
            return Err(SequenceError::PartialFrame);
        }
        if bytes.len() / FRAME_BYTES > MAX_FRAMES {
            return Err(SequenceError::TooManyFrames);
        }
        Ok(Image16x16Sequence { bytes })
    }

    /// Builds a sequence from a raw blob: each 768 bytes are one frame,
    /// already in display order.
    pub fn from_bytes_rgb(bytes: &[u8]) -> (r: Result<Image16x16Sequence, SequenceError>)
        ensures
            bytes@.len() == 0 ==> r == Err::<Image16x16Sequence, SequenceError>(SequenceError::Empty),
            bytes@.len() > 0 && bytes@.len() % 768 != 0
                ==> r == Err::<Image16x16Sequence, SequenceError>(SequenceError::PartialFrame),
            bytes@.len() > 0 && bytes@.len() % 768 == 0 && bytes@.len() / 768 > 65535
                ==> r == Err::<Image16x16Sequence, SequenceError>(SequenceError::TooManyFrames),
            valid_frames(bytes@) <==> r is Ok,
            r is Ok ==> r->Ok_0@ == bytes@,
    {
        let mut v: Vec<u8> = Vec::new();
        push_all(&mut v, bytes);
        Self::from_frames(v)
    }

    /// The number of frames.
    pub fn get_frame_count(&self) -> (r: u16)
        ensures
            r as int == self@.len() / 768,
            r >= 1,
    {
        proof {
            use_type_invariant(self);
        }
        (self.bytes.len() / FRAME_BYTES) as u16
    }

    /// Copies into the buffer, unchanged, the frame for `time_us`
    /// microseconds: the whole seconds elapsed, modulo the frame count.
    pub fn process(&self, canvas: &mut [u8; 768], time_us: u64)
        ensures
            final(canvas)@ == frame_of(self@, frame_index_at((self@.len() / 768) as int, time_us as int)),
    {
        proof {
            use_type_invariant(self);
        }
        let n = self.bytes.len();
        let count = n / FRAME_BYTES;
        let f = ((time_us / MICROS_PER_SECOND) % (count as u64)) as usize;
        assert(f < count);
        assert(f * 768 + 768 <= count * 768) by (nonlinear_arith)
            requires
                f < count,
        ;
        let base = f * FRAME_BYTES;
        let ghost frame = frame_of(self@, f as int);
        let mut i: usize = 0;
        while i < FRAME_BYTES
            invariant
                0 <= i <= 768,
                base == f * 768,
                base + 768 <= n,
                n == self.bytes@.len(),
                self.bytes@.len() == count * 768,
                canvas@.len() == 768,
                frame == self.bytes@.subrange(base as int, base + 768),
                forall|j: int| 0 <= j < i ==> canvas@[j] == frame[j],
            decreases 768 - i,
        {
            canvas[i] = self.bytes[base + i];
            i = i + 1;
        }
        assert(canvas@ =~= frame);
    }
}

/// The buffer after the four orbiting circles are drawn at `centers`: each
/// a plus-shaped mark in its own colour, in order, over the faded buffer.
pub open spec fn orbs_frame(c: Seq<u8>, centers: Seq<(i32, i32)>) -> Seq<u8> {
    let c0 = faded(c, 12, 24, 12);
    let c1 = with_plus(c0, centers[0].0 as int, centers[0].1 as int, 0x00, 0xff, 0xff);
    let c2 = with_plus(c1, centers[1].0 as int, centers[1].1 as int, 0xff, 0x00, 0xff);
    let c3 = with_plus(c2, centers[2].0 as int, centers[2].1 as int, 0xff, 0x00, 0xaa);
    with_plus(c3, centers[3].0 as int, centers[3].1 as int, 0xaa, 0x00, 0xff)
}

/// Whether a centre can be drawn: its neighbours stay within `i32`.
pub open spec fn drawable(p: (i32, i32)) -> bool {
    i32::MIN < p.0 < i32::MAX && i32::MIN < p.1 < i32::MAX
}

/// Four circles that orbit the middle of the matrix, leaving fading trails.
/// Where the circles stand at a given time is worked out by the caller; the
/// effect itself holds no state.
pub struct Orbs {}

impl Orbs {
    /// The effect; it holds no state.
    pub fn new() -> Orbs {
        Orbs {  }
    }

    /// Darkens the buffer by `(12, 24, 12)`, then draws the four circles as
    /// plus-shaped marks at `centers`, in cyan, magenta, pink and violet.
    pub fn process(&self, canvas: &mut [u8; 768], centers: &[(i32, i32); 4])
        requires
            forall|k: int| 0 <= k < 4 ==> drawable(#[trigger] centers@[k]),
        ensures
            final(canvas)@ == orbs_frame(old(canvas)@, centers@),
    {
        fade_canvas(canvas, FADE_R, FADE_G, FADE_B);
        assert(drawable(centers@[0]) && drawable(centers@[1]) && drawable(centers@[2]) && drawable(centers@[3]));
        draw_plus(canvas, centers[0].0, centers[0].1, 0x00, 0xff, 0xff);
        draw_plus(canvas, centers[1].0, centers[1].1, 0xff, 0x00, 0xff);
        draw_plus(canvas, centers[2].0, centers[2].1, 0xff, 0x00, 0xaa);
        draw_plus(canvas, centers[3].0, centers[3].1, 0xaa, 0x00, 0xff);
    }
}

/// The orbiting circles are a pure function of where they stand: drawing
/// them twice over equal buffers, at the same centres, gives equal frames.
pub proof fn lemma_orbs_repeatable(a: Seq<u8>, b: Seq<u8>, centers: Seq<(i32, i32)>)
    requires
        a == b,
        centers.len() == 4,
    ensures
        orbs_frame(a, centers) == orbs_frame(b, centers),
{
}

/// Fractions of a pixel in which a falling particle's position is kept.
pub const SUBPIXELS: i32 = 1000;

/// Width of the matrix in particle units.
pub const SPAN: i32 = 16000;

/// The row just under the top edge where a particle re-enters.
pub const REENTRY_Y: i32 = 15999;

/// Number of falling particles.
pub const PARTICLES: usize = 12;

/// Whether a particle lies on the matrix.
pub open spec fn on_matrix(p: (i32, i32)) -> bool {
    0 <= p.0 < 16000 && 0 <= p.1 < 16000
}

/// Whether a step is one a particle may take: a fall of 0.2 to 1 pixel and
/// a sideways drift of at most 2 pixels.
pub open spec fn step_ok(fall: i32, drift: i32) -> bool {
    200 <= fall <= 1000 && -2000 <= drift <= 2000
}

/// A particle after one tick: it falls by `fall`; once below the bottom it
/// re-enters at the top, moved sideways by `drift`, wrapping round the sides.
pub open spec fn advanced(p: (i32, i32), fall: i32, drift: i32) -> (i32, i32) {
    let y = p.1 - fall;
    if y < 0 {
        let x = p.0 - drift;
        let x = if x < 0 {
            x + 16000
        } else if x >= 16000 {
            x - 16000
        } else {
            x
        };
        (x as i32, 15999)
    } else {
        (p.0, y as i32)
    }
}

/// Whether some allowed step takes a particle from `p` to `q`.
pub open spec fn one_step(p: (i32, i32), q: (i32, i32)) -> bool {
    exists|fall: i32, drift: i32| step_ok(fall, drift) && q == advanced(p, fall, drift)
}

/// The buffer with each particle of `ps` drawn, in order, as one warm pixel
/// at the pixel it lies in.
pub open spec fn with_meteors(c: Seq<u8>, ps: Seq<(i32, i32)>) -> Seq<u8>
    decreases ps.len(),
{
    if ps.len() == 0 {
        c
    } else {
        let p = ps.last();
        with_pixel(with_meteors(c, ps.drop_last()), p.0 / 1000, p.1 / 1000, 0xff, 0xa0, 0x00)
    }
}

/// The thread-local random generator of rand, carried through opaquely.
#[verifier::external_type_specification]
#[verifier::external_body]
pub struct ExThreadRng(rand::rngs::ThreadRng);

/// Relies on rand's `thread_rng`: it hands out the thread's generator and
/// promises nothing more.
pub assume_specification[ rand::thread_rng ]() -> rand::rngs::ThreadRng;

/// Relies on rand's `Rng::gen_range` with an inclusive integer range: the
/// value drawn lies in the range. It panics only on an empty range.
#[verifier::external_body]
fn random_in(rng: &mut rand::rngs::ThreadRng, lo: i32, hi: i32) -> (r: i32)
    requires
        lo <= hi,
    ensures
        lo <= r <= hi,
{
    rng.gen_range(lo..=hi)
}

/// A shower of twelve falling particles, each a warm pixel with a trail.
pub struct Meteors {
    particles: [(i32, i32); 12],
    rng: rand::rngs::ThreadRng,
}

impl View for Meteors {
    type V = Seq<(i32, i32)>;

    /// The particles' positions, in thousandths of a pixel.
    closed spec fn view(&self) -> Seq<(i32, i32)> {
        self.particles@
    }
}

impl Meteors {
    /// Every particle lies on the matrix.
    pub closed spec fn wf(&self) -> bool {
        forall|i: int| 0 <= i < 12 ==> on_matrix(#[trigger] self.particles@[i])
    }

    /// Twelve particles at random places on the matrix.
    pub fn new() -> (r: Meteors)
        ensures
            r.wf(),
            r@.len() == 12,
            forall|i: int| 0 <= i < 12 ==> on_matrix(#[trigger] r@[i]),
    {
        let mut rng = rand::thread_rng();
        let mut particles = [(0i32, 0i32); 12];
        let mut i: usize = 0;
        while i < PARTICLES
            invariant
                0 <= i <= 12,
                particles@.len() == 12,
                forall|j: int| 0 <= j < 12 ==> on_matrix(#[trigger] particles@[j]),
            decreases 12 - i,
        {
            let x = random_in(&mut rng, 0, SPAN - 1);
            let y = random_in(&mut rng, 0, SPAN - 1);
            particles[i] = (x, y);
            i = i + 1;
        }
        Meteors { particles, rng }
    }

    /// The particles' positions, in thousandths of a pixel.
    pub fn positions(&self) -> (r: [(i32, i32); 12])
        ensures
            r@ == self@,
            self.wf() ==> forall|i: int| 0 <= i < 12 ==> on_matrix(#[trigger] r@[i]),
    {
        self.particles
    }

    /// One tick with the steps given: darkens the buffer by `(12, 24, 12)`,
    /// draws every particle where it stands, then moves particle `i` by
    /// `falls[i]` and, if it leaves the bottom, by `drifts[i]`.
    pub fn step(&mut self, canvas: &mut [u8; 768], falls: &[i32; 12], drifts: &[i32; 12])
        requires
            old(self).wf(),
            forall|i: int| 0 <= i < 12 ==> step_ok(#[trigger] falls@[i], drifts@[i]),
        ensures
            final(self).wf(),
            final(self)@.len() == 12,
            forall|i: int| 0 <= i < 12 ==> on_matrix(#[trigger] final(self)@[i]),
            final(canvas)@ == with_meteors(faded(old(canvas)@, 12, 24, 12), old(self)@),
            final(self)@ == Seq::new(12, |i: int| advanced(old(self)@[i], falls@[i], drifts@[i])),
    {
        fade_canvas(canvas, FADE_R, FADE_G, FADE_B);
        let ghost start = canvas@;
        let ghost ps = self.particles@;
        let mut moved = self.particles;
        let mut i: usize = 0;
        while i < PARTICLES
            invariant
                0 <= i <= 12,
                ps == self.particles@,
                ps.len() == 12,
                forall|j: int| 0 <= j < 12 ==> step_ok(#[trigger] falls@[j], drifts@[j]),
                moved@.len() == 12,
                canvas@.len() == 768,
                canvas@ == with_meteors(start, ps.subrange(0, i as int)),
                forall|j: int| 0 <= j < 12 ==> on_matrix(#[trigger] ps[j]),
                forall|j: int| 0 <= j < i ==> #[trigger] moved@[j] == advanced(ps[j], falls@[j], drifts@[j]),
                forall|j: int| 0 <= j < 12 ==> on_matrix(#[trigger] moved@[j]),
            decreases 12 - i,
        {
            let (x, y) = self.particles[i];
            set_pixel(canvas, x / SUBPIXELS, y / SUBPIXELS, 0xff, 0xa0, 0x00);
            assert(ps.subrange(0, i + 1).drop_last() =~= ps.subrange(0, i as int));
            assert(step_ok(falls@[i as int], drifts@[i as int]));
            let mut ny = y - falls[i];
            let mut nx = x;
            if ny < 0 {
                ny = REENTRY_Y;
                nx = x - drifts[i];
                if nx < 0 {
                    nx = nx + SPAN;
                } else if nx >= SPAN {
                    nx = nx - SPAN;
                }
            }
            moved[i] = (nx, ny);
            i = i + 1;
        }
        assert(ps.subrange(0, 12) =~= ps);
        self.particles = moved;
        assert(self.particles@ =~= Seq::new(12, |i: int| advanced(ps[i], falls@[i], drifts@[i])));
    }

    /// One tick with random steps: darkens the buffer, draws every particle
    /// where it stands, then moves each by a fall drawn from 0.2 to 1 pixel
    /// and, where it re-enters at the top, a drift drawn from -2 to 2 pixels.
    pub fn process(&mut self, canvas: &mut [u8; 768])
        requires
            old(self).wf(),
        ensures
            final(self).wf(),
            final(self)@.len() == 12,
            forall|i: int| 0 <= i < 12 ==> on_matrix(#[trigger] final(self)@[i]),
            final(canvas)@ == with_meteors(faded(old(canvas)@, 12, 24, 12), old(self)@),
            forall|i: int| 0 <= i < 12 ==> one_step(old(self)@[i], #[trigger] final(self)@[i]),
    {
        let ghost before = self@;
        let mut falls = [0i32; 12];
        let mut drifts = [0i32; 12];
        let mut i: usize = 0;
        while i < PARTICLES
            invariant
                0 <= i <= 12,
                falls@.len() == 12,
                drifts@.len() == 12,
                forall|j: int| 0 <= j < i ==> step_ok(#[trigger] falls@[j], drifts@[j]),
                self@ == before,
                self.wf(),
                canvas@ == old(canvas)@,
            decreases 12 - i,
        {
            falls[i] = random_in(&mut self.rng, 200, 1000);
            drifts[i] = random_in(&mut self.rng, -2000, 2000);
            i = i + 1;
        }
        self.step(canvas, &falls, &drifts);
        assert forall|i: int| 0 <= i < 12 implies one_step(before[i], #[trigger] self@[i]) by {
            assert(step_ok(falls@[i], drifts@[i]));
            assert(self@[i] == advanced(before[i], falls@[i], drifts@[i]));
        }
    }
}

} // verus!
