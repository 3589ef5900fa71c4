use vstd::prelude::*;

use crate::effects::{Image16x16Sequence, SequenceError};
use vstd::string::StringSliceAdditionalSpecFns;

verus! {

/// How the channels of a decoded image are laid out.
#[derive(Debug, Clone, Copy, PartialEq, Eq, Structural)]
pub enum PixelLayout {
    /// Red, green, blue: three bytes a pixel.
    Rgb,
    /// Red, green, blue, alpha: four bytes a pixel.
    Rgba,
    /// Any other layout, which a sequence does not take.
    Other,
}

/// An image as a decoder hands it over: rows top first, pixels left to right.
pub struct DecodedImage {
    pub width: u32,
    pub height: u32,
    pub layout: PixelLayout,
    pub pixels: Vec<u8>,
}

impl View for DecodedImage {
    type V = (u32, u32, PixelLayout, Seq<u8>);

    open spec fn view(&self) -> (u32, u32, PixelLayout, Seq<u8>) {
        (self.width, self.height, self.layout, self.pixels@)
    }
}

/// Where byte `k` of a display frame comes from in a decoded 16 by 16 image
/// of `channels` bytes a pixel: the same column and channel, with the rows
/// in reverse order, since the display counts rows from the bottom.
pub open spec fn flip_index(k: int, channels: int) -> int {
    ((15 - (k / 3) / 16) * 16 + (k / 3) % 16) * channels + k % 3
}

/// A display frame from a decoded RGB image.
pub open spec fn flipped_rgb(px: Seq<u8>) -> Seq<u8> {
    Seq::new(768, |k: int| px[flip_index(k, 3)])
}

/// A display frame from a decoded RGBA image: every channel is masked with
/// the pixel's alpha, so a fully transparent pixel turns black.
pub open spec fn flipped_rgba(px: Seq<u8>) -> Seq<u8> {
    Seq::new(768, |k: int| px[flip_index(k, 4)] & px[flip_index(k, 4) - k % 3 + 3])
}

/// The display frame a decoded image gives, or why it gives none.
pub open spec fn frame_from(img: (u32, u32, PixelLayout, Seq<u8>)) -> Result<Seq<u8>, SequenceError> {
    if img.0 != 16 || img.1 != 16 {
        Err(SequenceError::WrongSize)
    } else {
        match img.2 {
            PixelLayout::Rgb => if img.3.len() >= 768 {
                Ok(flipped_rgb(img.3))
            } else {
                Err(SequenceError::Decode)
            },
            PixelLayout::Rgba => if img.3.len() >= 1024 {
                Ok(flipped_rgba(img.3))
            } else {
                Err(SequenceError::Decode)
            },
            PixelLayout::Other => Err(SequenceError::UnsupportedFormat),
        }
    }
}

proof fn lemma_flip_index_bounds(k: int, channels: int)
    requires
        0 <= k < 768,
        channels == 3 || channels == 4,
    ensures
        0 <= flip_index(k, channels),
        channels == 4 ==> flip_index(k, channels) - k % 3 + 3 < 256 * channels,
        flip_index(k, channels) < 256 * channels,
        0 <= k % 3 < 3,
{
    let p = k / 3;
    assert(0 <= p < 256);
    let row = p / 16;
    let col = p % 16;
    assert(0 <= row < 16 && 0 <= col < 16);
    let q = (15 - row) * 16 + col;
    assert(0 <= q < 256);
    assert(0 <= q * channels && q * channels + channels <= 256 * channels) by (nonlinear_arith)
        requires
            0 <= q < 256,
            channels == 3 || channels == 4,
    ;
}

/// Appends the display frame of a decoded 16 by 16 RGB image.
fn append_rgb_flipped(out: &mut Vec<u8>, px: &Vec<u8>)
    requires
        px@.len() >= 768,
    ensures
        final(out)@ == old(out)@ + flipped_rgb(px@),
{
    let ghost start = out@;
    let mut k: usize = 0;
    while k < 768
        invariant
            0 <= k <= 768,
            px@.len() >= 768,
            out@ == start + flipped_rgb(px@).subrange(0, k as int),
        decreases 768 - k,
    {
        proof {
            lemma_flip_index_bounds(k as int, 3);
        }
        let p = k / 3;
        let src = ((15 - p / 16) * 16 + p % 16) * 3 + k % 3;
        out.push(px[src]);
        k = k + 1;
        assert(out@ =~= start + flipped_rgb(px@).subrange(0, k as int));
    }
    assert(flipped_rgb(px@).subrange(0, 768) =~= flipped_rgb(px@));
}

/// Appends the display frame of a decoded 16 by 16 RGBA image.
fn append_rgba_flipped(out: &mut Vec<u8>, px: &Vec<u8>)
    requires
        px@.len() >= 1024,
    ensures
        final(out)@ == old(out)@ + flipped_rgba(px@),
{
    let ghost start = out@;
    let mut k: usize = 0;
    while k < 768
        invariant
            0 <= k <= 768,
            px@.len() >= 1024,
            out@ == start + flipped_rgba(px@).subrange(0, k as int),
        decreases 768 - k,
    {
        proof {
            lemma_flip_index_bounds(k as int, 4);
        }
        let p = k / 3;
        let pixel = ((15 - p / 16) * 16 + p % 16) * 4;
        let src = pixel + k % 3;
        out.push(px[src] & px[pixel + 3]);
        k = k + 1;
        assert(out@ =~= start + flipped_rgba(px@).subrange(0, k as int));
    }
    assert(flipped_rgba(px@).subrange(0, 768) =~= flipped_rgba(px@));
}

/// Appends the display frame of one decoded image: it must be exactly 16 by
/// 16 pixels, RGB or RGBA. On failure `out` is left as it was.
pub fn append_frame(out: &mut Vec<u8>, img: &DecodedImage) -> (r: Result<(), SequenceError>)
    ensures
        frame_from(img@) is Ok ==> r is Ok && final(out)@ == old(out)@ + frame_from(img@)->Ok_0,
        frame_from(img@) is Err ==> r == Err::<(), SequenceError>(frame_from(img@)->Err_0)
            && final(out)@ == old(out)@,
{
    if img.width != 16 || img.height != 16 {
        return Err(SequenceError::WrongSize);
    }
    match img.layout {
        PixelLayout::Rgb => {
            if img.pixels.len() < 768 {
                return Err(SequenceError::Decode);
            }
            append_rgb_flipped(out, &img.pixels);
            Ok(())
        },
        PixelLayout::Rgba => {
            if img.pixels.len() < 1024 {
                return Err(SequenceError::Decode);
            }
            append_rgba_flipped(out, &img.pixels);
            Ok(())
        },
        PixelLayout::Other => Err(SequenceError::UnsupportedFormat),
    }
}

/// The frames of a list of per-image results, back to back, or the first
/// image's reason for giving none.
pub open spec fn concat_frames(items: Seq<Result<Seq<u8>, SequenceError>>) -> Result<Seq<u8>, SequenceError>
    decreases items.len(),
{
    if items.len() == 0 {
        Ok(Seq::empty())
    } else {
        match concat_frames(items.drop_last()) {
            Err(e) => Err(e),
            Ok(b) => match items.last() {
                Err(e) => Err(e),
                Ok(f) => Ok(b + f),
            },
        }
    }
}

/// The frames of a sequence built from per-image results, or why there is
/// none: no image, the first failing image, or too many frames.
pub open spec fn sequence_of(items: Seq<Result<Seq<u8>, SequenceError>>) -> Result<Seq<u8>, SequenceError> {
    if items.len() == 0 {
        Err(SequenceError::Empty)
    } else {
        match concat_frames(items) {
            Err(e) => Err(e),
            Ok(b) => if items.len() > 65535 {
                Err(SequenceError::TooManyFrames)
            } else {
                Ok(b)
            },
        }
    }
}

/// The per-image results of a list of decoded images.
pub open spec fn decoded_frames(imgs: Seq<DecodedImage>) -> Seq<Result<Seq<u8>, SequenceError>> {
    Seq::new(imgs.len(), |i: int| frame_from(imgs[i]@))
}

/// Whether a build result agrees with the frames, or the error, expected.
pub open spec fn built_as(r: Result<Image16x16Sequence, SequenceError>, want: Result<Seq<u8>, SequenceError>) -> bool {
    match r {
        Ok(s) => want == Ok::<Seq<u8>, SequenceError>(s@),
        Err(e) => want == Err::<Seq<u8>, SequenceError>(e),
    }
}

proof fn lemma_concat_len(items: Seq<Result<Seq<u8>, SequenceError>>)
    requires
        concat_frames(items) is Ok,
        forall|i: int| 0 <= i < items.len() && (#[trigger] items[i]) is Ok ==> items[i]->Ok_0.len() == 768,
    ensures
        concat_frames(items)->Ok_0.len() == 768 * items.len(),
    decreases items.len(),
{
    if items.len() > 0 {
        let pre = items.drop_last();
        assert forall|i: int| 0 <= i < pre.len() && (#[trigger] pre[i]) is Ok implies pre[i]->Ok_0.len() == 768 by {
            assert(pre[i] == items[i]);
        }
        lemma_concat_len(pre);
        assert(items[items.len() - 1] == items.last());
    }
}

/// Once a prefix of the results fails, the whole list fails the same way.
proof fn lemma_concat_prefix_err(items: Seq<Result<Seq<u8>, SequenceError>>, n: int)
    requires
        0 <= n <= items.len(),
        concat_frames(items.subrange(0, n)) is Err,
    ensures
        concat_frames(items) == concat_frames(items.subrange(0, n)),
    decreases items.len() - n,
{
    if n == items.len() {
        assert(items.subrange(0, n) =~= items);
    } else {
        assert(items.subrange(0, n + 1).drop_last() =~= items.subrange(0, n));
        lemma_concat_prefix_err(items, n + 1);
    }
}

/// Frames always have their full length.
proof fn lemma_frame_len(img: (u32, u32, PixelLayout, Seq<u8>))
    ensures
        frame_from(img) is Ok ==> frame_from(img)->Ok_0.len() == 768,
{
}

/// Builds a sequence from decoded images, one frame each, in order. Fails
/// on no image, or on the first image that is not 16 by 16 RGB or RGBA.
pub fn from_decoded(images: &Vec<DecodedImage>) -> (r: Result<Image16x16Sequence, SequenceError>)
    ensures
        built_as(r, sequence_of(decoded_frames(images@))),
{
    let ghost items = decoded_frames(images@);
    if images.len() == 0 {
        return Err(SequenceError::Empty);
    }
    let mut bytes: Vec<u8> = Vec::new();
    let mut i: usize = 0;
    while i < images.len()
        invariant
            0 <= i <= images@.len(),
            items == decoded_frames(images@),
            concat_frames(items.subrange(0, i as int)) == Ok::<Seq<u8>, SequenceError>(bytes@),
        decreases images@.len() - i,
    {
        assert(items.subrange(0, i + 1).drop_last() =~= items.subrange(0, i as int));
        assert(items.subrange(0, i + 1).last() == frame_from(images@[i as int]@));
        match append_frame(&mut bytes, &images[i]) {
            Err(e) => {
                proof {
                    lemma_concat_prefix_err(items, i + 1);
                }
                return Err(e);
            },
            Ok(()) => {},
        }
        i = i + 1;
    }
    assert(items.subrange(0, i as int) =~= items);
    proof {
        assert forall|j: int| 0 <= j < items.len() && (#[trigger] items[j]) is Ok implies items[j]->Ok_0.len() == 768 by {
            lemma_frame_len(images@[j]@);
        }
        lemma_concat_len(items);
    }
    if images.len() > 65535 {
        return Err(SequenceError::TooManyFrames);
    }
    Image16x16Sequence::from_frames(bytes)
}

/// An image's dimensions, layout and pixels, where it decodes at all.
pub open spec fn decoded_view(r: Option<DecodedImage>) -> Option<(u32, u32, PixelLayout, Seq<u8>)> {
    match r {
        Some(img) => Some(img@),
        None => None,
    }
}

/// What the gif crate decodes a file to, every frame expanded to RGBA: the
/// logical screen's width and height, then each frame in file order.
pub uninterp spec fn gif_decoded(data: Seq<u8>) -> Option<(u16, u16, Seq<(u32, u32, PixelLayout, Seq<u8>)>)>;

/// What the png crate decodes a file's first image to, normalised to eight
/// bits per channel.
pub uninterp spec fn png_decoded(data: Seq<u8>) -> Option<(u32, u32, PixelLayout, Seq<u8>)>;

/// What the jpeg-decoder crate decodes a file to.
pub uninterp spec fn jpeg_decoded(data: Seq<u8>) -> Option<(u32, u32, PixelLayout, Seq<u8>)>;

/// What the bmp crate decodes a file to, read out as RGB rows, top first.
pub uninterp spec fn bmp_decoded(data: Seq<u8>) -> Option<(u32, u32, PixelLayout, Seq<u8>)>;

/// Relies on gif's `DecodeOptions::read_info` with RGBA colour output,
/// `Decoder::width`, `Decoder::height` and `Decoder::read_next_frame`: the
/// frames come out of the bytes alone, in file order.
#[verifier::external_body]
fn decode_gif(data: &[u8]) -> (r: Option<(u16, u16, Vec<DecodedImage>)>)
    ensures
        match r {
            Some(d) => gif_decoded(data@) == Some((d.0, d.1, Seq::new(d.2@.len(), |i: int| d.2@[i]@))),
            None => gif_decoded(data@) is None,
        },
{
    let mut options = gif::DecodeOptions::new();
    options.set_color_output(gif::ColorOutput::RGBA);
    let mut decoder = options.read_info(data).ok()?;
    let (width, height) = (decoder.width(), decoder.height());
    let mut frames = Vec::new();
    while let Some(f) = decoder.read_next_frame().ok()? {
        let (w, h, pixels) = (f.width as u32, f.height as u32, f.buffer.to_vec());
        frames.push(DecodedImage { width: w, height: h, layout: PixelLayout::Rgba, pixels });
    }
    Some((width, height, frames))
}

/// Relies on png's `Decoder::read_info` with `normalize_to_color8` and
/// `Reader::next_frame`: the first image, from the bytes alone.
#[verifier::external_body]
fn decode_png(data: &[u8]) -> (r: Option<DecodedImage>)
    ensures
        decoded_view(r) == png_decoded(data@),
{
    let mut decoder = png::Decoder::new(data);
    decoder.set_transformations(png::Transformations::normalize_to_color8());
    let mut reader = decoder.read_info().ok()?;
    let mut pixels = vec![0u8; reader.output_buffer_size()];
    let info = reader.next_frame(&mut pixels).ok()?;
    let layout = match info.color_type {
        png::ColorType::Rgb => PixelLayout::Rgb,
        png::ColorType::Rgba => PixelLayout::Rgba,
        png::ColorType::Grayscale => PixelLayout::Other,
        png::ColorType::GrayscaleAlpha => PixelLayout::Other,
        png::ColorType::Indexed => PixelLayout::Other,
    };
    Some(DecodedImage { width: info.width, height: info.height, layout, pixels })
}

/// Relies on jpeg-decoder's `Decoder::decode` and `Decoder::info`: the
/// pixels and their format, from the bytes alone. The crate is built with
/// its `platform_independent` feature, which leaves out the SIMD paths that
/// round differently on some processors.
#[verifier::external_body]
fn decode_jpeg(data: &[u8]) -> (r: Option<DecodedImage>)
    ensures
        decoded_view(r) == jpeg_decoded(data@),
{
    let mut decoder = jpeg_decoder::Decoder::new(data);
    let pixels = decoder.decode().ok()?;
    let info = decoder.info()?;
    let layout = match info.pixel_format {
        jpeg_decoder::PixelFormat::RGB24 => PixelLayout::Rgb,
        jpeg_decoder::PixelFormat::L8 => PixelLayout::Other,
        jpeg_decoder::PixelFormat::L16 => PixelLayout::Other,
        jpeg_decoder::PixelFormat::CMYK32 => PixelLayout::Other,
    };
    Some(DecodedImage { width: info.width as u32, height: info.height as u32, layout, pixels })
}

/// Relies on bmp's `from_reader` and `Image::get_pixel`: the pixels, from
/// the bytes alone, read out row by row from the top. `from_reader` panics
/// on some malformed headers; `bmp_safe` leaves all of those out.
#[verifier::external_body]
fn decode_bmp(data: &[u8]) -> (r: Option<DecodedImage>)
    requires
        bmp_safe(data@),
    ensures
        decoded_view(r) == bmp_decoded(data@),
{
    let img = bmp::from_reader(&mut &data[..]).ok()?;
    let mut pixels = Vec::new();
    for y in 0..img.get_height() {
        for x in 0..img.get_width() {
            let p = img.get_pixel(x, y);
            pixels.extend_from_slice(&[p.r, p.g, p.b]);
        }
    }
    Some(DecodedImage { width: img.get_width(), height: img.get_height(), layout: PixelLayout::Rgb, pixels })
}

/// The little-endian 16-bit field at byte `i`.
pub open spec fn le16_at(d: Seq<u8>, i: int) -> int {
    d[i] + 256 * d[i + 1]
}

/// The little-endian 32-bit field at byte `i`.
pub open spec fn le32_at(d: Seq<u8>, i: int) -> int {
    le16_at(d, i) + 65536 * le16_at(d, i + 2)
}

/// The magnitude of the signed 32-bit field at byte `i`.
pub open spec fn dim_at(d: Seq<u8>, i: int) -> int {
    let v = le32_at(d, i);
    if v < 0x8000_0000 {
        v
    } else {
        0x1_0000_0000 - v
    }
}

/// Bytes of pixel data in one row of a palette bitmap.
pub open spec fn bmp_row_bytes(width: int, bpp: int) -> int {
    (width * bpp + 7) / 8
}

/// Bytes from one row of a palette bitmap to the next: the row padded to a
/// multiple of four.
pub open spec fn bmp_row_stride(width: int, bpp: int) -> int {
    bmp_row_bytes(width, bpp) + (4 - bmp_row_bytes(width, bpp) % 4) % 4
}

/// The fewest palette entries that every pixel index of this depth can name.
pub open spec fn palette_min(bpp: int) -> int {
    if bpp == 1 {
        2
    } else if bpp == 4 {
        16
    } else {
        256
    }
}

/// Whether the bmp decoder can read `d` without panicking: a full header;
/// width and height of at most 4096 pixels either way; no palette beside
/// 24-bit pixels; and for 1, 4 and 8-bit pixels a palette of at most 256
/// entries that covers every index, with every row inside the file.
pub open spec fn bmp_safe(d: Seq<u8>) -> bool {
    &&& d.len() >= 54
    &&& dim_at(d, 18) <= 4096
    &&& dim_at(d, 22) <= 4096
    &&& le16_at(d, 28) == 24 ==> le32_at(d, 46) == 0
    &&& (le16_at(d, 28) == 1 || le16_at(d, 28) == 4 || le16_at(d, 28) == 8) ==> {
        &&& le32_at(d, 46) <= 256
        &&& (le32_at(d, 46) == 0 || le32_at(d, 46) >= palette_min(le16_at(d, 28)))
        &&& (dim_at(d, 22) == 0 || le32_at(d, 10) + bmp_row_stride(dim_at(d, 18), le16_at(d, 28)) * (dim_at(
            d,
            22,
        ) - 1) + bmp_row_bytes(dim_at(d, 18), le16_at(d, 28)) <= d.len())
    }
}

/// Reads the little-endian 16-bit field at byte `i`.
fn read_le16(d: &[u8], i: usize) -> (r: u64)
    requires
        i < 64,
        i + 2 <= d@.len(),
    ensures
        r == le16_at(d@, i as int),
        r < 65536,
{
    d[i] as u64 + 256 * d[i + 1] as u64
}

/// Reads the little-endian 32-bit field at byte `i`.
fn read_le32(d: &[u8], i: usize) -> (r: u64)
    requires
        i < 60,
        i + 4 <= d@.len(),
    ensures
        r == le32_at(d@, i as int),
        r < 0x1_0000_0000,
{
    let lo = read_le16(d, i);
    let hi = read_le16(d, i + 2);
    assert(65536 * hi <= 65536 * 65535) by (nonlinear_arith)
        requires
            hi < 65536,
    ;
    lo + 65536 * hi
}

/// Reads the magnitude of the signed 32-bit field at byte `i`.
fn read_dim(d: &[u8], i: usize) -> (r: u64)
    requires
        i < 60,
        i + 4 <= d@.len(),
    ensures
        r == dim_at(d@, i as int),
{
    let v = read_le32(d, i);
    if v < 0x8000_0000 {
        v
    } else {
        0x1_0000_0000 - v
    }
}

/// Whether the bmp decoder can read `data` without panicking.
pub fn bmp_decodable(data: &[u8]) -> (r: bool)
    ensures
        r == bmp_safe(data@),
{
    if data.len() < 54 {
        return false;
    }
    let w = read_dim(data, 18);
    let h = read_dim(data, 22);
    if w > 4096 || h > 4096 {
        return false;
    }
    let bpp = read_le16(data, 28);
    let ncol = read_le32(data, 46);
    let offset = read_le32(data, 10);
    if bpp == 24 {
        return ncol == 0;
    }
    if bpp != 1 && bpp != 4 && bpp != 8 {
        return true;
    }
    if ncol > 256 {
        return false;
    }
    let min: u64 = if bpp == 1 {
        2
    } else if bpp == 4 {
        16
    } else {
        256
    };
    if ncol != 0 && ncol < min {
        return false;
    }
    if h == 0 {
        return true;
    }
    assert(w * bpp <= 4096 * 8) by (nonlinear_arith)
        requires
            w <= 4096,
            bpp <= 8,
    ;
    let row = (w * bpp + 7) / 8;
    let stride = row + (4 - row % 4) % 4;
    assert(stride * (h - 1) <= 4099 * 4096) by (nonlinear_arith)
        requires
            stride <= 4099,
            h <= 4096,
    ;
    assert(row == bmp_row_bytes(w as int, bpp as int));
    assert(stride == bmp_row_stride(w as int, bpp as int));
    offset + stride * (h - 1) + row <= data.len() as u64
}

/// The sequence a GIF file's bytes give: the screen must be 16 by 16, and
/// so must every frame.
pub open spec fn gif_sequence(data: Seq<u8>) -> Result<Seq<u8>, SequenceError> {
    match gif_decoded(data) {
        None => Err(SequenceError::Decode),
        Some(d) => if d.0 != 16 || d.1 != 16 {
            Err(SequenceError::WrongSize)
        } else {
            sequence_of(Seq::new(d.2.len(), |i: int| frame_from(d.2[i])))
        },
    }
}

impl Image16x16Sequence {
    /// Builds a sequence from the bytes of an animated GIF, one frame per
    /// frame of the file, in order; rows are turned bottom first and every
    /// channel is masked with its pixel's alpha.
    pub fn from_gif_data(data: &[u8]) -> (r: Result<Image16x16Sequence, SequenceError>)
        ensures
            built_as(r, gif_sequence(data@)),
    {
        match decode_gif(data) {
            None => Err(SequenceError::Decode),
            Some((width, height, frames)) => {
                if width != 16 || height != 16 {
                    return Err(SequenceError::WrongSize);
                }
                let r = from_decoded(&frames);
                assert(decoded_frames(frames@) =~= Seq::new(
                    gif_decoded(data@)->Some_0.2.len(),
                    |i: int| frame_from(gif_decoded(data@)->Some_0.2[i]),
                ));
                r
            },
        }
    }
}

/// The still-image encodings a sequence can be built from.
#[derive(Debug, Clone, Copy, PartialEq, Eq, Structural)]
pub enum ImageKind {
    Png,
    Jpeg,
    Bmp,
}

/// Whether `s` ends with `suffix`.
pub open spec fn has_suffix(s: Seq<u8>, suffix: Seq<u8>) -> bool {
    s.len() >= suffix.len() && s.subrange(s.len() - suffix.len(), s.len() as int) == suffix
}

/// The encoding a file name announces by its extension: `.png`, `.jpg` or
/// `.jpeg`, `.bmp`; none for any other name.
pub open spec fn kind_of_name(name: Seq<u8>) -> Option<ImageKind> {
    if has_suffix(name, seq![0x2eu8, 0x70u8, 0x6eu8, 0x67u8]) {
        Some(ImageKind::Png)
    } else if has_suffix(name, seq![0x2eu8, 0x6au8, 0x70u8, 0x67u8])
        || has_suffix(name, seq![0x2eu8, 0x6au8, 0x70u8, 0x65u8, 0x67u8]) {
        Some(ImageKind::Jpeg)
    } else if has_suffix(name, seq![0x2eu8, 0x62u8, 0x6du8, 0x70u8]) {
        Some(ImageKind::Bmp)
    } else {
        None
    }
}

/// Whether `s` ends with `suffix`.
fn ends_with(s: &[u8], suffix: &[u8]) -> (r: bool)
    ensures
        r == has_suffix(s@, suffix@),
{
    if s.len() < suffix.len() {
        return false;
    }
    let n = s.len();
    let start = n - suffix.len();
    let mut i: usize = 0;
    while i < suffix.len()
        invariant
            0 <= i <= suffix@.len(),
            start + suffix@.len() == s@.len(),
            s@.len() == n,
            forall|j: int| 0 <= j < i ==> s@[start + j] == suffix@[j],
        decreases suffix@.len() - i,
    {
        if s[start + i] != suffix[i] {
            assert(s@.subrange(start as int, s@.len() as int)[i as int] != suffix@[i as int]);
            return false;
        }
        i = i + 1;
    }
    assert(s@.subrange(start as int, s@.len() as int) =~= suffix@);
    true
}

/// The encoding a file name announces by its extension.
pub fn image_kind(path: &str) -> (r: Option<ImageKind>)
    ensures
        r == kind_of_name(path.spec_bytes()),
{
    let name = path.as_bytes();
    // ".png", ".jpg", ".jpeg" and ".bmp" in ASCII.
    let png = [0x2eu8, 0x70u8, 0x6eu8, 0x67u8];
    let jpg = [0x2eu8, 0x6au8, 0x70u8, 0x67u8];
    let jpeg = [0x2eu8, 0x6au8, 0x70u8, 0x65u8, 0x67u8];
    let bmp = [0x2eu8, 0x62u8, 0x6du8, 0x70u8];
    assert(png@ =~= seq![0x2eu8, 0x70u8, 0x6eu8, 0x67u8]);
    assert(jpg@ =~= seq![0x2eu8, 0x6au8, 0x70u8, 0x67u8]);
    assert(jpeg@ =~= seq![0x2eu8, 0x6au8, 0x70u8, 0x65u8, 0x67u8]);
    assert(bmp@ =~= seq![0x2eu8, 0x62u8, 0x6du8, 0x70u8]);
    if ends_with(name, png.as_slice()) {
        Some(ImageKind::Png)
    } else if ends_with(name, jpg.as_slice()) || ends_with(name, jpeg.as_slice()) {
        Some(ImageKind::Jpeg)
    } else if ends_with(name, bmp.as_slice()) {
        Some(ImageKind::Bmp)
    } else {
        None
    }
}

/// A still image to load: the encoding its name announced, if any, and the
/// file's bytes.
pub struct ImageSource {
    pub kind: Option<ImageKind>,
    pub data: Vec<u8>,
}

/// What a file of the given encoding decodes to.
pub open spec fn decoded_as(kind: ImageKind, data: Seq<u8>) -> Option<(u32, u32, PixelLayout, Seq<u8>)> {
    match kind {
        ImageKind::Png => png_decoded(data),
        ImageKind::Jpeg => jpeg_decoded(data),
        ImageKind::Bmp => if bmp_safe(data) {
            bmp_decoded(data)
        } else {
            None
        },
    }
}

/// The frame a still-image file gives, or why it gives none.
pub open spec fn source_frame(src: ImageSource) -> Result<Seq<u8>, SequenceError> {
    match src.kind {
        None => Err(SequenceError::UnsupportedFormat),
        Some(k) => match decoded_as(k, src.data@) {
            None => Err(SequenceError::Decode),
            Some(img) => frame_from(img),
        },
    }
}

/// The per-image results of a list of still-image files.
pub open spec fn source_frames(srcs: Seq<ImageSource>) -> Seq<Result<Seq<u8>, SequenceError>> {
    Seq::new(srcs.len(), |i: int| frame_from_source_at(srcs, i))
}

/// The result for file `i` of the list.
pub open spec fn frame_from_source_at(srcs: Seq<ImageSource>, i: int) -> Result<Seq<u8>, SequenceError> {
    source_frame(srcs[i])
}

/// Decodes one still-image file by its encoding.
fn decode_source(src: &ImageSource) -> (r: Result<DecodedImage, SequenceError>)
    ensures
        match r {
            Ok(img) => src.kind is Some && decoded_as(src.kind->Some_0, src.data@) == Some(img@),
            Err(e) => source_frame(*src) == Err::<Seq<u8>, SequenceError>(e),
        },
{
    let decoded = match src.kind {
        None => return Err(SequenceError::UnsupportedFormat),
        Some(ImageKind::Png) => decode_png(src.data.as_slice()),
        Some(ImageKind::Jpeg) => decode_jpeg(src.data.as_slice()),
        Some(ImageKind::Bmp) => {
            if !bmp_decodable(src.data.as_slice()) {
                return Err(SequenceError::Decode);
            }
            decode_bmp(src.data.as_slice())
        },
    };
    match decoded {
        None => Err(SequenceError::Decode),
        Some(img) => Ok(img),
    }
}

impl Image16x16Sequence {
    /// Builds a sequence from still images, one frame each, in order: each
    /// must be a PNG, JPEG or BMP file of exactly 16 by 16 pixels, RGB or
    /// RGBA. Fails on no image or on the first image that does not qualify.
    pub fn from_image_data(sources: &Vec<ImageSource>) -> (r: Result<Image16x16Sequence, SequenceError>)
        ensures
            built_as(r, sequence_of(source_frames(sources@))),
    {
        let ghost items = source_frames(sources@);
        if sources.len() == 0 {
            return Err(SequenceError::Empty);
        }
        let mut bytes: Vec<u8> = Vec::new();
        let mut i: usize = 0;
        while i < sources.len()
            invariant
                0 <= i <= sources@.len(),
                items == source_frames(sources@),
                concat_frames(items.subrange(0, i as int)) == Ok::<Seq<u8>, SequenceError>(bytes@),
            decreases sources@.len() - i,
        {
            assert(items.subrange(0, i + 1).drop_last() =~= items.subrange(0, i as int));
            assert(items.subrange(0, i + 1).last() == source_frame(sources@[i as int]));
            let step = match decode_source(&sources[i]) {
                Err(e) => Err(e),
                Ok(img) => append_frame(&mut bytes, &img),
            };
            match step {
                Err(e) => {
                    proof {
                        lemma_concat_prefix_err(items, i + 1);
                    }
                    return Err(e);
                },
                Ok(()) => {},
            }
            i = i + 1;
        }
        assert(items.subrange(0, i as int) =~= items);
        proof {
            assert forall|j: int| 0 <= j < items.len() && (#[trigger] items[j]) is Ok implies items[j]->Ok_0.len() == 768 by {
                let src = sources@[j];
                if src.kind is Some && decoded_as(src.kind->Some_0, src.data@) is Some {
                    lemma_frame_len(decoded_as(src.kind->Some_0, src.data@)->Some_0);
                }
            }
            lemma_concat_len(items);
        }
        if sources.len() > 65535 {
            return Err(SequenceError::TooManyFrames);
        }
        Image16x16Sequence::from_frames(bytes)
    }
}

} // verus!
