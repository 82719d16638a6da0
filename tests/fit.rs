use img2tempdecal::{calc_optimal_size, resize_to_fit_into_tempdecal, size_cap, Pixel};

#[test]
fn size_caps_of_both_modes() {
    assert_eq!(size_cap(false), 12288);
    assert_eq!(size_cap(true), 14337);
}

#[test]
fn sizes_that_fit_are_kept() {
    let mut w = 16;
    while w <= 1024 {
        let mut h = 16;
        while h <= 1024 {
            if w * h < 12288 {
                assert_eq!(calc_optimal_size(w, h, 12288), (w, h));
            }
            h += 16;
        }
        w += 16;
    }
}

#[test]
fn chosen_size_is_under_the_cap() {
    for &cap in &[12288usize, 14337] {
        for w in (1..700).step_by(13) {
            for h in (1..700).step_by(17) {
                let (nw, nh) = calc_optimal_size(w, h, cap);
                assert!(nw * nh < cap, "{}x{} -> {}x{}", w, h, nw, nh);
                assert!(nw >= 1 && nh >= 1);
            }
        }
    }
}

#[test]
fn perfect_ratio_over_the_cap_is_not_taken() {
    // 128 x 112 is exactly the source ratio, but it has 14336 pixels.
    assert_eq!(calc_optimal_size(128, 112, 12288), (112, 96));
    assert_eq!(calc_optimal_size(128, 112, 14337), (128, 112));
}

#[test]
fn closest_ratio_is_chosen() {
    assert_eq!(calc_optimal_size(1000, 7, 12288), (256, 16));
    assert_eq!(calc_optimal_size(7, 1000, 12288), (16, 256));
    assert_eq!(calc_optimal_size(250, 90, 12288), (176, 64));
    assert_eq!(calc_optimal_size(640, 480, 12288), (64, 48));
}

#[test]
fn ties_go_to_the_first_candidate() {
    // Every square candidate matches a square source; the grid starts at 16 x 16.
    assert_eq!(calc_optimal_size(208, 208, 12288), (16, 16));
    // Ratio 3: 48 x 16 comes before 96 x 32 and 144 x 48.
    assert_eq!(calc_optimal_size(300, 100, 12288), (48, 16));
    // Not a multiple of 16, so the grid is searched even though it is small.
    assert_eq!(calc_optimal_size(100, 50, 12288), (32, 16));
}

#[test]
fn fitting_raster_is_not_resampled() {
    let tex: Vec<Pixel> = (0..64 * 32).map(|i| Pixel::new((i % 256) as u8, 1, 2, 77)).collect();
    let (out, w, h) = resize_to_fit_into_tempdecal(tex.clone(), 64, 32, false, true).unwrap();
    assert_eq!((w, h), (64, 32));
    // Alpha 77 is left alone: no resampling, no thresholding.
    assert_eq!(out, tex);
}

#[test]
fn resampled_raster_has_binary_alpha() {
    let mut tex = Vec::new();
    for y in 0..208 {
        for x in 0..208 {
            let a = if (x + y) % 3 == 0 { 100 } else { 200 };
            tex.push(Pixel::new(x as u8, y as u8, 9, a));
        }
    }
    let (out, w, h) = resize_to_fit_into_tempdecal(tex, 208, 208, false, false).unwrap();
    assert_eq!((w, h), (16, 16));
    assert_eq!(out.len(), 256);
    assert!(out.iter().all(|p| p.a == 0 || p.a == 255));
}

#[test]
fn point_resampling_keeps_a_solid_color() {
    let tex = vec![Pixel::new(10, 20, 30, 255); 300 * 100];
    let (out, w, h) = resize_to_fit_into_tempdecal(tex, 300, 100, false, true).unwrap();
    assert_eq!((w, h), (48, 16));
    assert!(out.iter().all(|p| *p == Pixel::new(10, 20, 30, 255)));
}
