use image_tiers::fit::fit_dimensions;

#[test]
fn downscale_two_to_one() {
    assert_eq!(fit_dimensions(2000, 1000, 1024), (1024, 512));
    assert_eq!(fit_dimensions(2000, 1000, 640), (640, 320));
    assert_eq!(fit_dimensions(2000, 1000, 320), (320, 160));
    assert_eq!(fit_dimensions(2000, 1000, 240), (240, 120));
    assert_eq!(fit_dimensions(2000, 1000, 128), (128, 64));
    assert_eq!(fit_dimensions(2000, 1000, 64), (64, 32));
}

#[test]
fn long_side_becomes_exactly_max() {
    assert_eq!(fit_dimensions(1025, 1025, 1024), (1024, 1024));
    assert_eq!(fit_dimensions(999, 3000, 1024).1, 1024);
    assert_eq!(fit_dimensions(3000, 999, 1024).0, 1024);
}

#[test]
fn already_fitting_image_is_unchanged() {
    assert_eq!(fit_dimensions(100, 100, 128), (100, 100));
    assert_eq!(fit_dimensions(100, 100, 1024), (100, 100));
    assert_eq!(fit_dimensions(1024, 1024, 1024), (1024, 1024));
    assert_eq!(fit_dimensions(64, 64, 64), (64, 64));
}

#[test]
fn no_upscale_on_shrink() {
    let (w, h) = fit_dimensions(100, 100, 64);
    assert_eq!((w, h), (64, 64));
    assert!(w <= 100 && h <= 100);
}

#[test]
fn degenerate_dimensions_are_unchanged() {
    assert_eq!(fit_dimensions(0, 0, 64), (0, 0));
    assert_eq!(fit_dimensions(0, 5000, 1024), (0, 5000));
    assert_eq!(fit_dimensions(5000, 0, 1024), (5000, 0));
}

#[test]
fn thin_image_short_side_clamps_to_one() {
    assert_eq!(fit_dimensions(3, 1000, 64), (1, 64));
    assert_eq!(fit_dimensions(1000, 3, 64), (64, 1));
}

#[test]
fn rounding_is_to_nearest() {
    // 1500 * 1024 / 2000 = 768 exactly; 1300 * 1024 / 2000 = 665.6 rounds to 666.
    assert_eq!(fit_dimensions(2000, 1500, 1024), (1024, 768));
    assert_eq!(fit_dimensions(2000, 1300, 1024), (1024, 666));
}

#[test]
fn aspect_ratio_within_rounding_tolerance() {
    let cases: [(u32, u32, u32); 5] = [
        (2000, 1000, 1024),
        (1920, 1080, 320),
        (4032, 3024, 128),
        (777, 333, 64),
        (1023, 1025, 240),
    ];
    for (w, h, m) in cases {
        let (nw, nh) = fit_dimensions(w, h, m);
        let lhs = nw as i64 * h as i64;
        let rhs = nh as i64 * w as i64;
        let tol = (w + h) as i64;
        assert!((lhs - rhs).abs() <= tol, "{w}x{h} -> {nw}x{nh}");
    }
}
