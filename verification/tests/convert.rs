use away::convert::{auto_size, bgra_to_i420, fit_height, i420_to_pixels, I420};

/// A `w` x `h` BGRA image of one colour, rows padded to `stride` bytes.
fn solid(w: usize, h: usize, stride: usize, (r, g, b): (u8, u8, u8)) -> Vec<u8> {
    let mut v = vec![0u8; stride * h];
    for y in 0..h {
        for x in 0..w {
            let o = y * stride + x * 4;
            v[o] = b;
            v[o + 1] = g;
            v[o + 2] = r;
            v[o + 3] = 255;
        }
    }
    v
}

#[test]
fn auto_size_halves_only_wide_screens() {
    assert_eq!(auto_size(1920, 1080), (1920, 1080));
    assert_eq!(auto_size(2560, 1440), (2560, 1440));
    assert_eq!(auto_size(3840, 2160), (1920, 1080));
    assert_eq!(auto_size(1921, 1081), (1920, 1080));
    assert_eq!(auto_size(5122, 2882), (2560, 1440));
}

#[test]
fn fit_height_keeps_aspect_and_evenness() {
    assert_eq!(fit_height(1920, 1080, 1280), 720);
    assert_eq!(fit_height(1920, 1080, 1228), 690);
    assert_eq!(fit_height(1920, 1080, 784), 440);
    assert_eq!(fit_height(0, 1080, 640), 0);
}

#[test]
fn new_buffer_is_empty() {
    let f = I420::new();
    assert_eq!(f.dimensions(), (0, 0));
    assert_eq!(f.strides(), (0, 0, 0));
    assert!(f.y().is_empty() && f.u().is_empty() && f.v().is_empty());
}

#[test]
fn white_black_and_red_in_limited_range() {
    let mut f = I420::new();
    bgra_to_i420(&solid(2, 2, 8, (255, 255, 255)), 8, 2, 2, (2, 2), &mut f);
    assert_eq!(f.dimensions(), (2, 2));
    assert_eq!(f.y(), &[235, 235, 235, 235]);
    assert_eq!(f.u(), &[128]);
    assert_eq!(f.v(), &[128]);
    bgra_to_i420(&solid(2, 2, 8, (0, 0, 0)), 8, 2, 2, (2, 2), &mut f);
    assert_eq!(f.y(), &[16, 16, 16, 16]);
    assert_eq!((f.u()[0], f.v()[0]), (128, 128));
    bgra_to_i420(&solid(2, 2, 8, (255, 0, 0)), 8, 2, 2, (2, 2), &mut f);
    assert_eq!(f.y(), &[82, 82, 82, 82]);
    assert_eq!((f.u()[0], f.v()[0]), (90, 240));
}

#[test]
fn padded_rows_are_read_by_stride() {
    let mut f = I420::new();
    // 2 x 2 pixels in rows of 12 bytes (4 bytes of padding each).
    let mut src = solid(2, 2, 12, (0, 0, 0));
    src[8] = 255; // padding must be ignored
    bgra_to_i420(&src, 12, 2, 2, (2, 2), &mut f);
    assert_eq!(f.y(), &[16, 16, 16, 16]);
}

#[test]
fn downscaling_averages_boxes() {
    // 4 x 2 source: left half white, right half black; scaled to 2 x 2.
    let mut src = solid(4, 2, 16, (0, 0, 0));
    for y in 0..2 {
        for x in 0..2 {
            let o = y * 16 + x * 4;
            src[o] = 255;
            src[o + 1] = 255;
            src[o + 2] = 255;
        }
    }
    let mut f = I420::new();
    bgra_to_i420(&src, 16, 4, 2, (2, 2), &mut f);
    assert_eq!(f.dimensions(), (2, 2));
    assert_eq!(f.y(), &[235, 16, 235, 16]);
    // Chroma averages the 2 x 2 block: grey 127.
    assert_eq!((f.u()[0], f.v()[0]), (128, 128));
}

#[test]
fn uneven_cells_average_their_own_pixels() {
    // 3 x 2 source scaled to 2 x 2: cells are columns {0} and {1, 2}.
    let mut src = solid(3, 2, 12, (0, 0, 0));
    for y in 0..2 {
        let o = y * 12 + 1 * 4; // middle column white
        src[o] = 255;
        src[o + 1] = 255;
        src[o + 2] = 255;
    }
    let mut f = I420::new();
    bgra_to_i420(&src, 12, 3, 2, (2, 2), &mut f);
    // Left cell black (16); right cell averages white and black: 127 -> luma 125.
    assert_eq!(f.y(), &[16, 125, 16, 125]);
}

#[test]
fn odd_target_sizes_are_rounded_down_and_bad_sizes_ignored() {
    let mut f = I420::new();
    bgra_to_i420(&solid(4, 4, 16, (255, 255, 255)), 16, 4, 4, (3, 3), &mut f);
    assert_eq!(f.dimensions(), (2, 2));
    // Larger than the source or empty: the buffer is left as it was.
    bgra_to_i420(&solid(4, 4, 16, (0, 0, 0)), 16, 4, 4, (6, 4), &mut f);
    assert_eq!(f.dimensions(), (2, 2));
    assert_eq!(f.y(), &[235, 235, 235, 235]);
    bgra_to_i420(&solid(4, 4, 16, (0, 0, 0)), 16, 4, 4, (1, 4), &mut f);
    assert_eq!(f.y(), &[235, 235, 235, 235]);
}

#[test]
fn same_as_compares_size_and_planes() {
    let mut a = I420::new();
    let mut b = I420::new();
    assert!(a.same_as(&b));
    bgra_to_i420(&solid(2, 2, 8, (10, 20, 30)), 8, 2, 2, (2, 2), &mut a);
    assert!(!a.same_as(&b));
    bgra_to_i420(&solid(2, 2, 8, (10, 20, 30)), 8, 2, 2, (2, 2), &mut b);
    assert!(a.same_as(&b));
    bgra_to_i420(&solid(2, 2, 8, (10, 20, 90)), 8, 2, 2, (2, 2), &mut b);
    assert!(!a.same_as(&b));
    assert_eq!(a.strides(), (2, 1, 1));
}

#[test]
fn decoding_limited_range_back_to_rgb() {
    let mut out = Vec::new();
    // Y 235 / 16 with neutral chroma: white and black.
    i420_to_pixels(&[235, 16], &[128], &[128], (2, 1, 1), 2, 1, &mut out);
    assert_eq!(out, vec![(255, 255, 255), (0, 0, 0)]);
    // Red as the encoder writes it.
    i420_to_pixels(&[82, 82, 82, 82], &[90], &[240], (2, 1, 1), 2, 2, &mut out);
    assert_eq!(out.len(), 4);
    for p in &out {
        assert!(p.0 >= 250 && p.1 <= 5 && p.2 <= 5, "{p:?}");
    }
}

#[test]
fn decoding_clamps_out_of_range_values() {
    let mut out = vec![(1, 2, 3)];
    i420_to_pixels(&[255, 0], &[255], &[0], (2, 1, 1), 2, 1, &mut out);
    // The previous contents are replaced.
    assert_eq!(out.len(), 2);
    // Y 255, U 255, V 0: R = (298*239 - 409*128 + 128) >> 8 = 74; G and B overflow to 255.
    assert_eq!(out[0], (74, 255, 255));
    // Y 0 is below black: red goes negative and clamps to 0.
    assert_eq!(out[1], (0, 36, 237));
}

#[test]
fn encode_then_decode_stays_close() {
    let mut f = I420::new();
    let colours = [(200, 120, 40), (16, 200, 99), (128, 128, 128)];
    for c in colours {
        bgra_to_i420(&solid(2, 2, 8, c), 8, 2, 2, (2, 2), &mut f);
        let mut out = Vec::new();
        let (w, h) = f.dimensions();
        i420_to_pixels(f.y(), f.u(), f.v(), f.strides(), w, h, &mut out);
        for p in &out {
            assert!((p.0 as i32 - c.0 as i32).abs() <= 3, "{p:?} vs {c:?}");
            assert!((p.1 as i32 - c.1 as i32).abs() <= 3, "{p:?} vs {c:?}");
            assert!((p.2 as i32 - c.2 as i32).abs() <= 3, "{p:?} vs {c:?}");
        }
    }
}

#[test]
fn solid_colour_survives_any_scaling() {
    let c = (37, 180, 220);
    let mut f = I420::new();
    bgra_to_i420(&solid(7, 5, 28, c), 28, 7, 5, (4, 4), &mut f);
    let mut g = I420::new();
    bgra_to_i420(&solid(2, 2, 8, c), 8, 2, 2, (2, 2), &mut g);
    assert_eq!(f.dimensions(), (4, 4));
    assert!(f.y().iter().all(|&y| y == g.y()[0]));
    assert!(f.u().iter().all(|&u| u == g.u()[0]));
    assert!(f.v().iter().all(|&v| v == g.v()[0]));
}

#[test]
fn every_grey_level_comes_back_within_one_step() {
    let mut f = I420::new();
    let mut out = Vec::new();
    for v in 0..=255u8 {
        bgra_to_i420(&solid(2, 2, 8, (v, v, v)), 8, 2, 2, (2, 2), &mut f);
        assert_eq!((f.u()[0], f.v()[0]), (128, 128));
        i420_to_pixels(f.y(), f.u(), f.v(), f.strides(), 2, 2, &mut out);
        let p = out[0];
        assert!(p.0 == p.1 && p.1 == p.2);
        assert!((p.0 as i32 - v as i32).abs() <= 1, "{v} -> {p:?}");
    }
    bgra_to_i420(&solid(2, 2, 8, (255, 255, 255)), 8, 2, 2, (2, 2), &mut f);
    i420_to_pixels(f.y(), f.u(), f.v(), f.strides(), 2, 2, &mut out);
    assert_eq!(out[0], (255, 255, 255));
}
