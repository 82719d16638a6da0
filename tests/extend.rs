use img2tempdecal::{extend_to_m16, Pixel};

#[test]
fn multiple_of_16_is_left_alone() {
    let tex: Vec<Pixel> = (0..32 * 16).map(|i| Pixel::new(i as u8, 0, 0, 255)).collect();
    let (out, w, h) = extend_to_m16(tex.clone(), 32, 16);
    assert_eq!((w, h), (32, 16));
    assert_eq!(out, tex);
}

#[test]
fn single_pixel_is_centered_and_replicated() {
    let p = Pixel::new(10, 20, 30, 40);
    let (out, w, h) = extend_to_m16(vec![p], 1, 1);
    assert_eq!((w, h), (16, 16));
    assert_eq!(out.len(), 256);
    for y in 0..16 {
        for x in 0..16 {
            let q = out[y * 16 + x];
            if (x, y) == (7, 7) {
                assert_eq!(q, p);
            } else {
                assert_eq!(q, Pixel::new(10, 20, 30, 0));
            }
        }
    }
}

#[test]
fn borders_take_the_nearest_edge_color() {
    // 17 x 2: padded to 32 x 16, original at x 7..24, y 7..9.
    let mut tex = Vec::new();
    for y in 0..2u8 {
        for x in 0..17u8 {
            tex.push(Pixel::new(x, y, 1, 255));
        }
    }
    let (out, w, h) = extend_to_m16(tex, 17, 2);
    assert_eq!((w, h), (32, 16));
    let at = |x: usize, y: usize| out[y * 32 + x];
    assert_eq!(at(7, 7), Pixel::new(0, 0, 1, 255));
    assert_eq!(at(23, 8), Pixel::new(16, 1, 1, 255));
    // left and right of the rows
    assert_eq!(at(0, 7), Pixel::new(0, 0, 1, 0));
    assert_eq!(at(31, 8), Pixel::new(16, 1, 1, 0));
    // bands above and below
    assert_eq!(at(10, 0), Pixel::new(3, 0, 1, 0));
    assert_eq!(at(10, 15), Pixel::new(3, 1, 1, 0));
    // corners
    assert_eq!(at(0, 0), Pixel::new(0, 0, 1, 0));
    assert_eq!(at(31, 15), Pixel::new(16, 1, 1, 0));
}

#[test]
fn extending_twice_is_extending_once() {
    let tex: Vec<Pixel> = (0..100 * 50).map(|i| Pixel::new(i as u8, (i / 7) as u8, 3, (i % 256) as u8)).collect();
    let once = extend_to_m16(tex, 100, 50);
    assert_eq!((once.1, once.2), (112, 64));
    let twice = extend_to_m16(once.0.clone(), once.1, once.2);
    assert_eq!(twice, once);
}
