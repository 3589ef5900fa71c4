use vstd::prelude::*;

verus! {

/// Index of the first byte of pixel `(x, y)` in a frame buffer.
pub open spec fn pixel_offset(x: int, y: int) -> int {
    (y * 16 + x) * 3
}

/// Whether `(x, y)` names a pixel of the matrix.
pub open spec fn in_bounds(x: int, y: int) -> bool {
    0 <= x < 16 && 0 <= y < 16
}

/// The buffer after writing `(r, g, b)` at `(x, y)`; unchanged when the
/// coordinates fall outside the matrix.
pub open spec fn with_pixel(c: Seq<u8>, x: int, y: int, r: u8, g: u8, b: u8) -> Seq<u8> {
    if in_bounds(x, y) {
        let o = pixel_offset(x, y);
        c.update(o, r).update(o + 1, g).update(o + 2, b)
    } else {
        c
    }
}

/// Writes one pixel; coordinates outside the matrix are clipped silently.
pub fn set_pixel(canvas: &mut [u8; 768], x: i32, y: i32, r: u8, g: u8, b: u8)
    ensures
        final(canvas)@ == with_pixel(old(canvas)@, x as int, y as int, r, g, b),
{
    if y < 0 || y >= 16 || x < 0 || x >= 16 {
        return;
    }
    let idx = y as usize * 16 + x as usize;
    canvas[idx * 3] = r;
    canvas[idx * 3 + 1] = g;
    canvas[idx * 3 + 2] = b;
}

/// `v` less `d`, stopping at zero.
pub open spec fn sat_sub(v: u8, d: u8) -> u8 {
    if v >= d { (v - d) as u8 } else { 0 }
}

/// The amount taken from the byte at index `i`, by the channel it holds.
pub open spec fn channel_amount(i: int, r: u8, g: u8, b: u8) -> u8 {
    if i % 3 == 0 { r } else if i % 3 == 1 { g } else { b }
}

/// The buffer with each channel lowered by its amount, saturating at zero.
pub open spec fn faded(c: Seq<u8>, r: u8, g: u8, b: u8) -> Seq<u8> {
    Seq::new(c.len(), |i: int| sat_sub(c[i], channel_amount(i, r, g, b)))
}

/// Darkens every pixel: each channel drops by its amount, never below zero.
pub fn fade_canvas(canvas: &mut [u8; 768], r_fade: u8, g_fade: u8, b_fade: u8)
    ensures
        final(canvas)@ == faded(old(canvas)@, r_fade, g_fade, b_fade),
{
    let ghost start = canvas@;
    let mut i: usize = 0;
    while i < 256
        invariant
            0 <= i <= 256,
            canvas@.len() == 768,
            start.len() == 768,
            forall|j: int| 0 <= j < 3 * i ==> canvas@[j] == sat_sub(start[j], channel_amount(j, r_fade, g_fade, b_fade)),
            forall|j: int| 3 * i <= j < 768 ==> canvas@[j] == start[j],
        decreases 256 - i,
    {
        canvas[i * 3] = canvas[i * 3].saturating_sub(r_fade);
        canvas[i * 3 + 1] = canvas[i * 3 + 1].saturating_sub(g_fade);
        canvas[i * 3 + 2] = canvas[i * 3 + 2].saturating_sub(b_fade);
        i = i + 1;
    }
    assert(canvas@ =~= faded(start, r_fade, g_fade, b_fade));
}

/// The buffer after a plus-shaped mark: the centre and its four neighbours,
/// each clipped on its own.
pub open spec fn with_plus(c: Seq<u8>, x: int, y: int, r: u8, g: u8, b: u8) -> Seq<u8> {
    let c1 = with_pixel(c, x, y, r, g, b);
    let c2 = with_pixel(c1, x, y + 1, r, g, b);
    let c3 = with_pixel(c2, x, y - 1, r, g, b);
    let c4 = with_pixel(c3, x + 1, y, r, g, b);
    with_pixel(c4, x - 1, y, r, g, b)
}

/// Draws a plus-shaped mark of five pixels centred on `(x0, y0)`.
pub fn draw_plus(canvas: &mut [u8; 768], x0: i32, y0: i32, r: u8, g: u8, b: u8)
    requires
        i32::MIN < x0 < i32::MAX,
        i32::MIN < y0 < i32::MAX,
    ensures
        final(canvas)@ == with_plus(old(canvas)@, x0 as int, y0 as int, r, g, b),
{
    set_pixel(canvas, x0, y0, r, g, b);
    set_pixel(canvas, x0, y0 + 1, r, g, b);
    set_pixel(canvas, x0, y0 - 1, r, g, b);
    set_pixel(canvas, x0 + 1, y0, r, g, b);
    set_pixel(canvas, x0 - 1, y0, r, g, b);
}

/// Drawing outside the matrix is clipped: for any coordinates outside
/// `[0, 16)`, writing a pixel leaves the buffer exactly as it was.
pub proof fn lemma_set_pixel_outside_unchanged(c: Seq<u8>, x: int, y: int, r: u8, g: u8, b: u8)
    requires
        !in_bounds(x, y),
    ensures
        with_pixel(c, x, y, r, g, b) == c,
{
}

/// Fading saturates at zero: whatever the starting value and the amount,
/// each channel ends at its value less the amount, or at zero where the
/// amount is larger, and never wraps round.
pub proof fn lemma_fade_saturates(c: Seq<u8>, r: u8, g: u8, b: u8, i: int)
    requires
        0 <= i < c.len(),
    ensures
        faded(c, r, g, b)[i] as int == if c[i] >= channel_amount(i, r, g, b) {
            c[i] - channel_amount(i, r, g, b)
        } else {
            0
        },
        faded(c, r, g, b)[i] <= c[i],
{
}

} // verus!
