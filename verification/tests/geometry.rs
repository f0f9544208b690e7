use screen_recorder::geometry::{
    downscale_image, normalize_frame, resize_rgba_nn, resolve_target_geometry, round_down_even,
    round_up_even,
};

fn solid(w: usize, h: usize, color: [u8; 4]) -> Vec<u8> {
    let mut v = Vec::with_capacity(w * h * 4);
    for _ in 0..w * h {
        v.extend_from_slice(&color);
    }
    v
}

#[test]
fn resize_output_dimensions_match_target() {
    let src = solid(3, 5, [1, 2, 3, 4]);
    let dst = resize_rgba_nn(&src, 3, 5, 7, 4);
    assert_eq!(dst.len(), 7 * 4 * 4);
    let dst2 = resize_rgba_nn(&src, 3, 5, 1, 1);
    assert_eq!(dst2.len(), 4);
}

#[test]
fn resize_solid_color_stays_solid() {
    let src = solid(3, 5, [200, 10, 30, 255]);
    let dst = resize_rgba_nn(&src, 3, 5, 7, 4);
    for px in dst.chunks(4) {
        assert_eq!(px, &[200, 10, 30, 255]);
    }
    let up = resize_rgba_nn(&src, 3, 5, 64, 64);
    for px in up.chunks(4) {
        assert_eq!(px, &[200, 10, 30, 255]);
    }
}

#[test]
fn resize_degenerate_source_yields_zero_buffer() {
    let dst = resize_rgba_nn(&[], 0, 5, 6, 4);
    assert_eq!(dst.len(), 6 * 4 * 4);
    assert!(dst.iter().all(|&b| b == 0));
    let dst2 = resize_rgba_nn(&[], 3, 0, 2, 2);
    assert_eq!(dst2.len(), 2 * 2 * 4);
    assert!(dst2.iter().all(|&b| b == 0));
}

#[test]
fn resize_identity_copies_pixels() {
    let mut src = Vec::new();
    for i in 0..2 * 2 * 4 {
        src.push(i as u8);
    }
    let dst = resize_rgba_nn(&src, 2, 2, 2, 2);
    assert_eq!(dst, src);
}

#[test]
fn resize_two_by_two_doubling_duplicates_quadrants() {
    // Pixels: a b / c d, each a distinct color.
    let a = [10, 0, 0, 255];
    let b = [0, 20, 0, 255];
    let c = [0, 0, 30, 255];
    let d = [40, 40, 40, 255];
    let mut src = Vec::new();
    for px in [a, b, c, d] {
        src.extend_from_slice(&px);
    }
    let dst = resize_rgba_nn(&src, 2, 2, 4, 4);
    let px = |x: usize, y: usize| &dst[(y * 4 + x) * 4..(y * 4 + x) * 4 + 4];
    // floor(x * 2 / 4): columns 0,1 -> source 0; columns 2,3 -> source 1.
    assert_eq!(px(0, 0), &a);
    assert_eq!(px(1, 1), &a);
    assert_eq!(px(2, 0), &b);
    assert_eq!(px(3, 1), &b);
    assert_eq!(px(0, 2), &c);
    assert_eq!(px(1, 3), &c);
    assert_eq!(px(2, 2), &d);
    assert_eq!(px(3, 3), &d);
}

#[test]
fn normalize_is_noop_for_matching_geometry() {
    let src = solid(3, 5, [4, 3, 2, 1]);
    assert_eq!(normalize_frame(src.clone(), 3, 5, 3, 5), src);
    let resized = normalize_frame(src, 3, 5, 6, 2);
    assert_eq!(resized.len(), 6 * 2 * 4);
    for px in resized.chunks(4) {
        assert_eq!(px, &[4, 3, 2, 1]);
    }
}

#[test]
fn parity_rounding() {
    assert_eq!(round_up_even(101), 102);
    assert_eq!(round_up_even(102), 102);
    assert_eq!(round_up_even(0), 0);
    assert_eq!(round_down_even(151), 150);
    assert_eq!(round_down_even(150), 150);
}

#[test]
fn resolved_geometry_rounds_up_to_even() {
    // Requested geometry 101x151 resolves to 102x152 before any frame is emitted.
    assert_eq!(resolve_target_geometry(Some((101, 151)), 0, 0), (102, 152));
    assert_eq!(resolve_target_geometry(None, 101, 151), (102, 152));
}

#[test]
fn resolved_geometry_floors_missing_hints() {
    assert_eq!(resolve_target_geometry(None, 0, -7), (2, 2));
    assert_eq!(resolve_target_geometry(None, 3, 4), (4, 4));
}

#[test]
fn downscale_keeps_narrow_images() {
    let src = solid(4, 3, [9, 9, 9, 9]);
    let (buf, w, h) = downscale_image(&src, 4, 3, 512);
    assert_eq!((w, h), (4, 3));
    assert_eq!(buf, src);
}

#[test]
fn downscale_halves_wide_images() {
    let src = solid(100, 40, [7, 8, 9, 10]);
    let (buf, w, h) = downscale_image(&src, 100, 40, 50);
    assert_eq!((w, h), (50, 20));
    assert_eq!(buf.len(), 50 * 20 * 4);
    for px in buf.chunks(4) {
        assert_eq!(px, &[7, 8, 9, 10]);
    }
}
