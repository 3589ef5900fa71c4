use pico_matrix::effects::{Image16x16Sequence, SequenceError};
use pico_matrix::loader::{append_frame, bmp_decodable, from_decoded, image_kind, DecodedImage, ImageKind, ImageSource, PixelLayout};

fn rgb_image(w: u32, h: u32) -> DecodedImage {
    let mut pixels = Vec::new();
    for y in 0..h {
        for x in 0..w {
            pixels.extend_from_slice(&[x as u8, y as u8, 200]);
        }
    }
    DecodedImage { width: w, height: h, layout: PixelLayout::Rgb, pixels }
}

fn bmp_file(pixel: impl Fn(u32, u32) -> [u8; 3]) -> Vec<u8> {
    let mut f = Vec::new();
    f.extend_from_slice(b"BM");
    f.extend_from_slice(&(54u32 + 768).to_le_bytes());
    f.extend_from_slice(&0u32.to_le_bytes());
    f.extend_from_slice(&54u32.to_le_bytes());
    f.extend_from_slice(&40u32.to_le_bytes());
    f.extend_from_slice(&16i32.to_le_bytes());
    f.extend_from_slice(&16i32.to_le_bytes());
    f.extend_from_slice(&1u16.to_le_bytes());
    f.extend_from_slice(&24u16.to_le_bytes());
    f.extend_from_slice(&0u32.to_le_bytes());
    f.extend_from_slice(&768u32.to_le_bytes());
    f.extend_from_slice(&2835u32.to_le_bytes());
    f.extend_from_slice(&2835u32.to_le_bytes());
    f.extend_from_slice(&0u32.to_le_bytes());
    f.extend_from_slice(&0u32.to_le_bytes());
    // rows are stored bottom first, pixels as blue, green, red
    for y in (0..16).rev() {
        for x in 0..16 {
            let [r, g, b] = pixel(x, y);
            f.extend_from_slice(&[b, g, r]);
        }
    }
    f
}

fn png_file(rgba: &[u8]) -> Vec<u8> {
    let mut out = Vec::new();
    {
        let mut enc = png::Encoder::new(&mut out, 16, 16);
        enc.set_color(png::ColorType::Rgba);
        enc.set_depth(png::BitDepth::Eight);
        let mut writer = enc.write_header().unwrap();
        writer.write_image_data(rgba).unwrap();
    }
    out
}

fn gif_file(size: u16, frames: &[Vec<u8>]) -> Vec<u8> {
    let mut out = Vec::new();
    {
        let palette = [255u8, 0, 0, 0, 255, 0, 0, 0, 255, 10, 20, 30];
        let mut enc = gif::Encoder::new(&mut out, size, size, &[]).unwrap();
        for f in frames {
            let frame = gif::Frame::from_palette_pixels(size, size, f.clone(), palette.to_vec(), Some(3));
            enc.write_frame(&frame).unwrap();
        }
    }
    out
}

#[test]
fn rgb_frame_rows_are_reversed() {
    let mut out = Vec::new();
    assert_eq!(append_frame(&mut out, &rgb_image(16, 16)), Ok(()));
    assert_eq!(out.len(), 768);
    // display row 0 is the image's bottom row
    assert_eq!(&out[0..3], &[0, 15, 200]);
    assert_eq!(&out[765..768], &[15, 0, 200]);
}

#[test]
fn rgba_frame_is_masked_by_alpha() {
    let mut pixels = vec![0u8; 1024];
    for i in 0..256 {
        pixels[i * 4] = 0xAB;
        pixels[i * 4 + 1] = 0xCD;
        pixels[i * 4 + 2] = 0xEF;
        pixels[i * 4 + 3] = if i % 2 == 0 { 0xFF } else { 0x00 };
    }
    let img = DecodedImage { width: 16, height: 16, layout: PixelLayout::Rgba, pixels };
    let mut out = vec![1u8];
    assert_eq!(append_frame(&mut out, &img), Ok(()));
    assert_eq!(out.len(), 769);
    assert_eq!(&out[1..4], &[0xAB, 0xCD, 0xEF]);
    assert_eq!(&out[4..7], &[0, 0, 0]);
}

#[test]
fn wrong_size_or_layout_is_rejected() {
    let mut out = Vec::new();
    assert_eq!(append_frame(&mut out, &rgb_image(16, 15)), Err(SequenceError::WrongSize));
    assert_eq!(append_frame(&mut out, &rgb_image(17, 16)), Err(SequenceError::WrongSize));
    let gray = DecodedImage { width: 16, height: 16, layout: PixelLayout::Other, pixels: vec![0; 256] };
    assert_eq!(append_frame(&mut out, &gray), Err(SequenceError::UnsupportedFormat));
    assert!(out.is_empty());
}

#[test]
fn decoded_list_builds_sequence() {
    let seq = from_decoded(&vec![rgb_image(16, 16), rgb_image(16, 16)]).unwrap();
    assert_eq!(seq.get_frame_count(), 2);
    assert_eq!(from_decoded(&vec![]).err(), Some(SequenceError::Empty));
    assert_eq!(
        from_decoded(&vec![rgb_image(16, 16), rgb_image(8, 8)]).err(),
        Some(SequenceError::WrongSize)
    );
}

#[test]
fn kinds_follow_extensions() {
    assert_eq!(image_kind("a.png"), Some(ImageKind::Png));
    assert_eq!(image_kind("dir/b.jpg"), Some(ImageKind::Jpeg));
    assert_eq!(image_kind("c.jpeg"), Some(ImageKind::Jpeg));
    assert_eq!(image_kind("d.bmp"), Some(ImageKind::Bmp));
    assert_eq!(image_kind("e.gif"), None);
    assert_eq!(image_kind("png"), None);
    assert_eq!(image_kind(""), None);
}

#[test]
fn bmp_file_is_loaded_bottom_row_first() {
    let data = bmp_file(|x, y| [(x * 16) as u8, (y * 16) as u8, 7]);
    let src = ImageSource { kind: Some(ImageKind::Bmp), data };
    let seq = Image16x16Sequence::from_image_data(&vec![src]).unwrap();
    let mut canvas = [0u8; 768];
    seq.process(&mut canvas, 0);
    assert_eq!(&canvas[0..3], &[0, 240, 7]);
    assert_eq!(&canvas[3..6], &[16, 240, 7]);
    assert_eq!(&canvas[765..768], &[240, 0, 7]);
}

#[test]
fn png_file_is_loaded_and_masked() {
    let mut rgba = vec![0u8; 1024];
    for i in 0..256 {
        rgba[i * 4..i * 4 + 4].copy_from_slice(&[0x11, 0x22, 0x33, if i < 16 { 0 } else { 0xFF }]);
    }
    let src = ImageSource { kind: Some(ImageKind::Png), data: png_file(&rgba) };
    let seq = Image16x16Sequence::from_image_data(&vec![src]).unwrap();
    let mut canvas = [9u8; 768];
    seq.process(&mut canvas, 0);
    // the image's transparent top row is the display's top row, now black
    assert_eq!(&canvas[0..3], &[0x11, 0x22, 0x33]);
    assert!(canvas[720..768].iter().all(|&v| v == 0));
}

#[test]
fn still_image_errors() {
    let bad = ImageSource { kind: Some(ImageKind::Png), data: vec![1, 2, 3] };
    assert_eq!(Image16x16Sequence::from_image_data(&vec![bad]).err(), Some(SequenceError::Decode));
    let jpeg = ImageSource { kind: Some(ImageKind::Jpeg), data: vec![0xFF, 0xD8, 0x00] };
    assert_eq!(Image16x16Sequence::from_image_data(&vec![jpeg]).err(), Some(SequenceError::Decode));
    let unknown = ImageSource { kind: None, data: vec![] };
    assert_eq!(Image16x16Sequence::from_image_data(&vec![unknown]).err(), Some(SequenceError::UnsupportedFormat));
    assert_eq!(Image16x16Sequence::from_image_data(&vec![]).err(), Some(SequenceError::Empty));
}

#[test]
fn gif_frames_are_loaded_in_order() {
    let mut first = vec![0u8; 256];
    first[0] = 3;
    let second = vec![1u8; 256];
    let seq = Image16x16Sequence::from_gif_data(&gif_file(16, &[first, second])).unwrap();
    assert_eq!(seq.get_frame_count(), 2);
    let mut canvas = [0u8; 768];
    seq.process(&mut canvas, 0);
    assert_eq!(&canvas[0..3], &[255, 0, 0]);
    // the transparent top-left pixel lands on the display's top row, black
    assert_eq!(&canvas[720..723], &[0, 0, 0]);
    seq.process(&mut canvas, 1_000_000);
    assert_eq!(&canvas[0..3], &[0, 255, 0]);
}

#[test]
fn gif_errors() {
    let small = gif_file(8, &[vec![0u8; 64]]);
    assert_eq!(Image16x16Sequence::from_gif_data(&small).err(), Some(SequenceError::WrongSize));
    assert_eq!(Image16x16Sequence::from_gif_data(&[1, 2, 3]).err(), Some(SequenceError::Decode));
    // a file without frames gives no sequence
    let none = gif_file(16, &[]);
    assert!(Image16x16Sequence::from_gif_data(&none).is_err());
}

fn set_u32(f: &mut [u8], at: usize, v: u32) {
    f[at..at + 4].copy_from_slice(&v.to_le_bytes());
}

#[test]
fn well_formed_bmp_is_decodable() {
    let data = bmp_file(|_, _| [1, 2, 3]);
    assert!(bmp_decodable(&data));
    assert!(!bmp_decodable(&data[..53]));
}

#[test]
fn malformed_bmp_is_rejected_without_panic() {
    // a width whose magnitude overflows
    let mut huge = bmp_file(|_, _| [1, 2, 3]);
    set_u32(&mut huge, 18, 0x8000_0000);
    assert!(!bmp_decodable(&huge));
    let src = ImageSource { kind: Some(ImageKind::Bmp), data: huge };
    assert_eq!(Image16x16Sequence::from_image_data(&vec![src]).err(), Some(SequenceError::Decode));

    // an 8-bit palette image whose rows run past the end of the file
    let mut short = bmp_file(|_, _| [1, 2, 3]);
    short[28] = 8;
    short.truncate(100);
    assert!(!bmp_decodable(&short));
    let src = ImageSource { kind: Some(ImageKind::Bmp), data: short };
    assert_eq!(Image16x16Sequence::from_image_data(&vec![src]).err(), Some(SequenceError::Decode));

    // a palette too small for the pixel depth
    let mut few = bmp_file(|_, _| [1, 2, 3]);
    few[28] = 8;
    set_u32(&mut few, 46, 4);
    assert!(!bmp_decodable(&few));

    // a palette beside 24-bit pixels
    let mut mixed = bmp_file(|_, _| [1, 2, 3]);
    set_u32(&mut mixed, 46, 2);
    assert!(!bmp_decodable(&mixed));
}

#[test]
fn palette_bmp_is_loaded() {
    // 16 by 16, 8 bits a pixel, two palette entries, every pixel index 1
    let mut f = bmp_file(|_, _| [0, 0, 0]);
    f.truncate(54);
    f[28] = 8;
    set_u32(&mut f, 46, 0);
    set_u32(&mut f, 10, 54 + 1024);
    for i in 0..256u32 {
        f.extend_from_slice(&[i as u8, 0, 0, 0]);
    }
    f.extend_from_slice(&[1u8; 256]);
    let total = f.len() as u32;
    set_u32(&mut f, 2, total);
    assert!(bmp_decodable(&f));
    let src = ImageSource { kind: Some(ImageKind::Bmp), data: f };
    let seq = Image16x16Sequence::from_image_data(&vec![src]).unwrap();
    let mut canvas = [9u8; 768];
    seq.process(&mut canvas, 0);
    // palette entries are stored blue, green, red: entry 1 is blue 1
    assert_eq!(&canvas[0..3], &[0, 0, 1]);
}
