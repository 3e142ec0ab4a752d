use photoframe::layout::{center_offset, clamp_i, compute_padded_stride, resize_to_contain, resize_to_cover};

#[test]
fn cover_upscales_to_fill_canvas() {
    let (w, h) = resize_to_cover(1920, 1080, 800, 600, 8192);
    assert_eq!((w, h), (1920, 1440));
}

#[test]
fn cover_downscales_when_source_is_larger() {
    let (w, h) = resize_to_cover(1920, 1080, 4000, 3000, 8192);
    assert_eq!((w, h), (1920, 1440));
}

#[test]
fn cover_never_underfills_within_limits() {
    let (w, h) = resize_to_cover(1921, 1080, 3217, 2000, 8192);
    assert!(w >= 1921);
    assert!(h >= 1080);
}

#[test]
fn cover_is_clamped_to_max_dim() {
    let (w, h) = resize_to_cover(4000, 4000, 100, 10, 2048);
    assert!(w <= 2048 && h <= 2048);
    assert!(w >= 1 && h >= 1);
}

#[test]
fn contain_fits_inside_canvas() {
    let (w, h) = resize_to_contain(1920, 1080, 4000, 3000, 8192);
    assert_eq!((w, h), (1440, 1080));
    let (w, h) = resize_to_contain(1000, 1000, 500, 250, 8192);
    assert_eq!((w, h), (1000, 500));
}

#[test]
fn center_offset_splits_the_margin() {
    assert_eq!(center_offset(100, 50, 300, 150), (100, 50));
    assert_eq!(center_offset(101, 50, 300, 150), (99, 50));
    assert_eq!(center_offset(400, 400, 300, 150), (0, 0));
}

#[test]
fn padded_stride_rounds_up_to_alignment() {
    assert_eq!(compute_padded_stride(0), 0);
    assert_eq!(compute_padded_stride(1), 256);
    assert_eq!(compute_padded_stride(256), 256);
    assert_eq!(compute_padded_stride(257), 512);
    assert_eq!(compute_padded_stride(7680), 7680);
    assert_eq!(compute_padded_stride(7681), 7936);
}

#[test]
fn clamp_i_keeps_indices_in_range() {
    assert_eq!(clamp_i(-5, 10), 0);
    assert_eq!(clamp_i(3, 10), 3);
    assert_eq!(clamp_i(12, 10), 9);
    assert_eq!(clamp_i(0, 1), 0);
}

#[test]
fn contained_sizes_fit_and_touch_the_canvas() {
    for &(cw, ch, sw, sh) in &[(1920u32, 1080u32, 4000u32, 3000u32), (800, 600, 1, 5000), (800, 600, 5000, 1), (3, 7, 7, 3)] {
        let (w, h) = resize_to_contain(cw, ch, sw, sh, 8192);
        assert!(1 <= w && w <= cw && 1 <= h && h <= ch);
        assert!(w == cw || h == ch);
    }
}
