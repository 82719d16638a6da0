use img2tempdecal::{finish_remap, remap_to_wad_texture, ConvertError, Pixel};

#[test]
fn transparent_colors_go_to_the_mask_index() {
    let palette = vec![
        Pixel::new(255, 0, 0, 255),
        Pixel::new(0, 255, 0, 10),
        Pixel::new(1, 2, 3, 128),
        Pixel::new(4, 5, 6, 127),
    ];
    let (idx, pal) = finish_remap(palette, vec![0, 1, 2, 3, 1, 0]).unwrap();
    assert_eq!(idx, vec![0, 255, 2, 255, 255, 0]);
    assert_eq!(&pal[0..12], &[255, 0, 0, 0, 255, 0, 1, 2, 3, 4, 5, 6]);
    // unused slots and the last one hold pure blue
    for j in 4..256 {
        assert_eq!(&pal[3 * j..3 * j + 3], &[0, 0, 255]);
    }
}

#[test]
fn last_slot_is_blue_even_when_used() {
    let palette: Vec<Pixel> = (0..256).map(|i| Pixel::new(i as u8, i as u8, i as u8, 255)).collect();
    let (idx, pal) = finish_remap(palette, vec![255, 254, 0]).unwrap();
    assert_eq!(idx, vec![255, 254, 0]);
    assert_eq!(&pal[765..768], &[0, 0, 255]);
    assert_eq!(&pal[762..765], &[254, 254, 254]);
}

#[test]
fn palette_longer_than_256_is_cut() {
    let palette: Vec<Pixel> = (0..300).map(|i| Pixel::new((i % 256) as u8, 0, 0, 255)).collect();
    let (_, pal) = finish_remap(palette, vec![3]).unwrap();
    assert_eq!(pal.len(), 768);
    assert_eq!(&pal[3..6], &[1, 0, 0]);
    assert_eq!(&pal[765..768], &[0, 0, 255]);
}

#[test]
fn index_outside_the_palette_is_an_error() {
    let palette = vec![Pixel::new(1, 1, 1, 255); 3];
    assert_eq!(finish_remap(palette, vec![0, 3]), Err(ConvertError::Quantize));
}

#[test]
fn no_kept_index_names_a_transparent_color() {
    let palette: Vec<Pixel> = (0..256).map(|i| Pixel::new(i as u8, 0, 0, i as u8)).collect();
    let indices: Vec<u8> = (0..=255).collect();
    let (idx, pal) = finish_remap(palette.clone(), indices).unwrap();
    assert_eq!(&pal[765..768], &[0, 0, 255]);
    for &i in &idx {
        if i != 255 {
            assert!(palette[i as usize].a >= 128);
        }
    }
}

#[test]
fn solid_opaque_raster_uses_one_color() {
    let tex = vec![Pixel::new(255, 0, 0, 255); 16 * 16];
    let (idx, pal) = remap_to_wad_texture(&tex, 16, 16).unwrap();
    assert_eq!(idx.len(), 256);
    let i = idx[0] as usize;
    assert!(idx.iter().all(|&j| j as usize == i));
    assert_ne!(i, 255);
    assert_eq!(&pal[3 * i..3 * i + 3], &[255, 0, 0]);
    assert_eq!(&pal[765..768], &[0, 0, 255]);
}

#[test]
fn transparent_raster_is_all_masked() {
    let tex = vec![Pixel::new(30, 60, 90, 0); 32 * 16];
    let (idx, pal) = remap_to_wad_texture(&tex, 32, 16).unwrap();
    assert_eq!(idx.len(), 512);
    assert!(idx.iter().all(|&j| j == 255));
    assert_eq!(&pal[765..768], &[0, 0, 255]);
}

#[test]
fn zero_side_fails_to_quantize() {
    assert_eq!(remap_to_wad_texture(&Vec::new(), 0, 5), Err(ConvertError::Quantize));
    assert_eq!(remap_to_wad_texture(&Vec::new(), 5, 0), Err(ConvertError::Quantize));
}
