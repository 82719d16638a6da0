use img2tempdecal::{convert_texture_to_tempdecal, rgba_pixels, texture_name, ConvertError, Pixel};

fn le32(b: &[u8], at: usize) -> u32 {
    u32::from_le_bytes([b[at], b[at + 1], b[at + 2], b[at + 3]])
}

fn solid(w: usize, h: usize, px: [u8; 4]) -> Vec<u8> {
    let mut v = Vec::with_capacity(w * h * 4);
    for _ in 0..w * h {
        v.extend_from_slice(&px);
    }
    v
}

/// Offsets of the parts of a tempdecal of `wh` pixels.
fn layout(wh: usize) -> (usize, usize, usize, usize, usize) {
    let mip0 = 12 + 40;
    let mip1 = mip0 + wh;
    let mip2 = mip1 + wh / 4;
    let mip3 = mip2 + wh / 16;
    let palette = mip3 + wh / 64 + 2;
    (mip0, mip1, mip2, mip3, palette)
}

#[test]
fn opaque_red_square_archive() {
    let bytes = convert_texture_to_tempdecal(&solid(64, 64, [255, 0, 0, 255]), 64, 64, false, true).unwrap();
    assert_eq!(&bytes[..4], b"WAD3");
    assert_eq!(le32(&bytes, 4), 1);
    let record = 40 + 4096 + 1024 + 256 + 64 + 2 + 768 + 2;
    assert_eq!(le32(&bytes, 8) as usize, 12 + record);
    assert_eq!(bytes.len(), 12 + record + 32);
    assert_eq!(&bytes[12..28], &texture_name());
    assert_eq!((le32(&bytes, 28), le32(&bytes, 32)), (64, 64));
    assert_eq!(
        (le32(&bytes, 36), le32(&bytes, 40), le32(&bytes, 44), le32(&bytes, 48)),
        (40, 40 + 4096, 40 + 4096 + 1024, 40 + 4096 + 1024 + 256)
    );
    let (m0, m1, m2, m3, pal) = layout(4096);
    let mip0 = &bytes[m0..m1];
    assert_eq!(mip0.len(), 4096);
    assert!(mip0.iter().all(|&b| b == mip0[0]));
    assert_ne!(mip0[0], 255);
    assert!(bytes[m1..pal - 2].iter().all(|&b| b == 0xff));
    assert_eq!((m2 - m1, m3 - m2, pal - 2 - m3), (1024, 256, 64));
    assert_eq!(&bytes[pal - 2..pal], &[0, 1]);
    let palette = &bytes[pal..pal + 768];
    let i = mip0[0] as usize;
    assert_eq!(&palette[3 * i..3 * i + 3], &[255, 0, 0]);
    assert_eq!(&palette[765..768], &[0, 0, 255]);
    let dir = &bytes[12 + record..];
    assert_eq!(le32(dir, 0), 12);
    assert_eq!(le32(dir, 4) as usize, record);
    assert_eq!(le32(dir, 8) as usize, record);
    assert_eq!(&dir[12..16], &[0x43, 0, 0, 0]);
    assert_eq!(&dir[16..32], &texture_name());
}

#[test]
fn transparent_input_is_fully_masked() {
    let bytes = convert_texture_to_tempdecal(&solid(100, 50, [200, 100, 50, 0]), 100, 50, false, false).unwrap();
    // padded to 112 x 64, which fits as it is
    assert_eq!((le32(&bytes, 28), le32(&bytes, 32)), (112, 64));
    let (m0, m1, _, _, pal) = layout(112 * 64);
    assert!(bytes[m0..m1].iter().all(|&b| b == 255));
    assert_eq!(&bytes[pal + 765..pal + 768], &[0, 0, 255]);
}

#[test]
fn padding_of_an_opaque_image_is_masked() {
    // 20 x 16 is padded to 32 x 16; the 12 added columns are transparent.
    let bytes = convert_texture_to_tempdecal(&solid(20, 16, [0, 200, 0, 255]), 20, 16, false, true).unwrap();
    assert_eq!((le32(&bytes, 28), le32(&bytes, 32)), (32, 16));
    let (m0, _, _, _, _) = layout(32 * 16);
    for y in 0..16 {
        for x in 0..32 {
            let b = bytes[m0 + y * 32 + x];
            if (6..26).contains(&x) {
                assert_ne!(b, 255);
            } else {
                assert_eq!(b, 255);
            }
        }
    }
}

#[test]
fn same_input_same_archive() {
    let mut tex = Vec::new();
    for y in 0..90u32 {
        for x in 0..70u32 {
            tex.extend_from_slice(&[(x * 3) as u8, (y * 2) as u8, (x ^ y) as u8, if x > 10 { 255 } else { 40 }]);
        }
    }
    let a = convert_texture_to_tempdecal(&tex, 70, 90, false, false).unwrap();
    let b = convert_texture_to_tempdecal(&tex, 70, 90, false, false).unwrap();
    assert_eq!(a, b);
}

#[test]
fn large_image_is_resampled_under_the_cap() {
    let bytes = convert_texture_to_tempdecal(&solid(1000, 7, [1, 2, 3, 255]), 1000, 7, false, false).unwrap();
    // padded to 1008 x 16, then fitted to the widest candidate
    assert_eq!((le32(&bytes, 28), le32(&bytes, 32)), (256, 16));
    let record = 40 + 4096 + 1024 + 256 + 64 + 2 + 768 + 2;
    assert_eq!(bytes.len(), 12 + record + 32);
}

#[test]
fn larger_mode_keeps_a_larger_texture() {
    let tex = solid(128, 112, [9, 9, 9, 255]);
    let big = convert_texture_to_tempdecal(&tex, 128, 112, true, true).unwrap();
    assert_eq!((le32(&big, 28), le32(&big, 32)), (128, 112));
    let small = convert_texture_to_tempdecal(&tex, 128, 112, false, true).unwrap();
    assert_eq!((le32(&small, 28), le32(&small, 32)), (112, 96));
}

#[test]
fn zero_size_is_rejected() {
    assert_eq!(convert_texture_to_tempdecal(&[], 0, 5, false, false), Err(ConvertError::ZeroSize));
    assert_eq!(convert_texture_to_tempdecal(&[], 5, 0, false, false), Err(ConvertError::ZeroSize));
}

#[test]
fn wrong_buffer_length_is_rejected() {
    assert_eq!(
        convert_texture_to_tempdecal(&[0; 15], 2, 2, false, false),
        Err(ConvertError::LengthMismatch)
    );
    assert_eq!(
        convert_texture_to_tempdecal(&[0; 20], 2, 2, false, false),
        Err(ConvertError::LengthMismatch)
    );
}

#[test]
fn bytes_are_read_four_per_pixel() {
    let px = rgba_pixels(&[1, 2, 3, 4, 5, 6, 7, 8, 9]);
    assert_eq!(px, vec![Pixel::new(1, 2, 3, 4), Pixel::new(5, 6, 7, 8)]);
}

#[test]
fn errors_describe_themselves() {
    assert_eq!(ConvertError::ZeroSize.message(), "width and height must be at least 1");
    assert_eq!(ConvertError::Quantize.message(), "color quantization failed");
}
