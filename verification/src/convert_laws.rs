//! Properties of the frame conversion.

use vstd::prelude::*;

use crate::convert::{
    box_avg, box_sum, cell_lo, chan, chroma_rgb, chroma_u, chroma_u_at, chroma_v, chroma_v_at,
    clamp_byte, conversion_applies, holds_conversion, lemma_box_avg_bounds, luma, luma_at, row_sum,
    scaled_pixel, spec_counts, yuv_to_rgb, I420,
};

verus! {

/// The sum of a list of counts.
pub open spec fn total(c: Seq<u32>) -> int
    decreases c.len(),
{
    if c.len() == 0 {
        0
    } else {
        total(c.drop_last()) + c.last()
    }
}

proof fn lemma_cell_lo_mono(i: int, s: int, d: int)
    requires
        0 <= i,
        0 < d,
        0 <= s,
    ensures
        0 <= cell_lo(i, s, d) <= cell_lo(i + 1, s, d),
{
    assert(0 <= i * s <= (i + 1) * s) by (nonlinear_arith)
        requires
            0 <= i,
            0 <= s,
    ;
    assert(0 <= (i * s) / d <= ((i + 1) * s) / d) by (nonlinear_arith)
        requires
            0 <= i * s <= (i + 1) * s,
            0 < d,
    ;
}

proof fn lemma_counts_prefix(s: int, d: int, k: int)
    requires
        0 < d,
        0 <= s <= u32::MAX,
        0 <= k <= d,
    ensures
        total(spec_counts(s, d).subrange(0, k)) == cell_lo(k, s, d),
    decreases k,
{
    let c = spec_counts(s, d);
    if k == 0 {
        assert(c.subrange(0, 0) =~= Seq::<u32>::empty());
        assert(0 * s / d == 0) by (nonlinear_arith)
            requires
                d > 0,
        ;
    } else {
        lemma_counts_prefix(s, d, k - 1);
        assert(c.subrange(0, k).drop_last() =~= c.subrange(0, k - 1));
        lemma_cell_lo_mono(k - 1, s, d);
        assert(k * s / d <= s) by (nonlinear_arith)
            requires
                0 <= k <= d,
                0 <= s,
                0 < d,
        ;
        assert(c[k - 1] == cell_lo(k, s, d) - cell_lo(k - 1, s, d));
    }
}

/// The output columns' cells tile the source row: every cell holds at least
/// one source pixel when scaling down, and the counts add up to the source
/// width exactly.
pub proof fn law_cells_tile_the_row(s: int, d: int)
    requires
        0 < d <= s <= u32::MAX,
    ensures
        spec_counts(s, d).len() == d,
        forall|i: int| 0 <= i < d ==> #[trigger] spec_counts(s, d)[i] >= 1,
        total(spec_counts(s, d)) == s,
{
    lemma_counts_prefix(s, d, d);
    assert(spec_counts(s, d).subrange(0, d) =~= spec_counts(s, d));
    assert(d * s / d == s) by (nonlinear_arith)
        requires
            d > 0,
    ;
    assert forall|i: int| 0 <= i < d implies #[trigger] spec_counts(s, d)[i] >= 1 by {
        let a = i * s;
        assert((i + 1) * s == a + s) by (nonlinear_arith)
            requires
                a == i * s,
        ;
        assert(a / d + 1 <= (a + s) / d) by (nonlinear_arith)
            requires
                0 < d <= s,
                0 <= a,
        ;
        assert(0 <= a) by (nonlinear_arith)
            requires
                0 <= i,
                0 <= s,
                a == i * s,
        ;
        assert((i + 1) * s / d <= s) by (nonlinear_arith)
            requires
                0 <= i + 1 <= d,
                0 <= s,
                0 < d,
        ;
    }
}

/// Every source pixel of the `sw` x `sh` image has colour `(r, g, b)`.
pub open spec fn solid(src: Seq<u8>, stride: int, sw: int, sh: int, r: int, g: int, b: int) -> bool {
    forall|x: int, y: int|
        0 <= x < sw && 0 <= y < sh ==> #[trigger] chan(src, stride, x, y, 0) == r && chan(src, stride, x, y, 1)
            == g && chan(src, stride, x, y, 2) == b
}

proof fn lemma_row_sum_solid(src: Seq<u8>, stride: int, c: int, y: int, x0: int, x1: int, v: int)
    requires
        x0 <= x1,
        forall|x: int| x0 <= x < x1 ==> #[trigger] chan(src, stride, x, y, c) == v,
    ensures
        row_sum(src, stride, c, y, x0, x1) == v * (x1 - x0),
    decreases x1 - x0,
{
    if x1 > x0 {
        lemma_row_sum_solid(src, stride, c, y, x0, x1 - 1, v);
        assert(chan(src, stride, x1 - 1, y, c) == v);
        assert(v * (x1 - 1 - x0) + v == v * (x1 - x0)) by (nonlinear_arith);
    } else {
        assert(v * (x1 - x0) == 0) by (nonlinear_arith)
            requires
                x1 == x0,
        ;
    }
}

proof fn lemma_box_sum_solid(src: Seq<u8>, stride: int, c: int, x0: int, x1: int, y0: int, y1: int, v: int)
    requires
        x0 <= x1,
        y0 <= y1,
        forall|x: int, y: int| x0 <= x < x1 && y0 <= y < y1 ==> #[trigger] chan(src, stride, x, y, c) == v,
    ensures
        box_sum(src, stride, c, x0, x1, y0, y1) == v * (x1 - x0) * (y1 - y0),
    decreases y1 - y0,
{
    if y1 > y0 {
        lemma_box_sum_solid(src, stride, c, x0, x1, y0, y1 - 1, v);
        assert forall|x: int| x0 <= x < x1 implies #[trigger] chan(src, stride, x, y1 - 1, c) == v by {}
        lemma_row_sum_solid(src, stride, c, y1 - 1, x0, x1, v);
        assert(v * (x1 - x0) * (y1 - 1 - y0) + v * (x1 - x0) == v * (x1 - x0) * (y1 - y0)) by (nonlinear_arith);
    } else {
        assert(v * (x1 - x0) * (y1 - y0) == 0) by (nonlinear_arith)
            requires
                y1 == y0,
        ;
    }
}

proof fn lemma_avg_solid(src: Seq<u8>, stride: int, sw: int, sh: int, w: int, h: int, ox: int, oy: int, c: int, v: int)
    requires
        0 <= ox < w <= sw,
        0 <= oy < h <= sh,
        forall|x: int, y: int| 0 <= x < sw && 0 <= y < sh ==> #[trigger] chan(src, stride, x, y, c) == v,
    ensures
        box_avg(src, stride, sw, sh, w, h, ox, oy, c) == v,
{
    let x0 = cell_lo(ox, sw, w);
    let x1 = cell_lo(ox + 1, sw, w);
    let y0 = cell_lo(oy, sh, h);
    let y1 = cell_lo(oy + 1, sh, h);
    lemma_cell_lo_mono(ox, sw, w);
    lemma_cell_lo_mono(oy, sh, h);
    assert((ox + 1) * sw / w <= sw) by (nonlinear_arith)
        requires
            0 <= ox + 1 <= w,
            0 <= sw,
            0 < w,
    ;
    assert((oy + 1) * sh / h <= sh) by (nonlinear_arith)
        requires
            0 <= oy + 1 <= h,
            0 <= sh,
            0 < h,
    ;
    let a = ox * sw;
    assert((ox + 1) * sw == a + sw && 0 <= a) by (nonlinear_arith)
        requires
            a == ox * sw,
            ox >= 0,
            sw >= 0,
    ;
    assert(a / w + 1 <= (a + sw) / w) by (nonlinear_arith)
        requires
            0 < w <= sw,
            0 <= a,
    ;
    let e = oy * sh;
    assert((oy + 1) * sh == e + sh && 0 <= e) by (nonlinear_arith)
        requires
            e == oy * sh,
            oy >= 0,
            sh >= 0,
    ;
    assert(e / h + 1 <= (e + sh) / h) by (nonlinear_arith)
        requires
            0 < h <= sh,
            0 <= e,
    ;
    lemma_box_sum_solid(src, stride, c, x0, x1, y0, y1, v);
    let area = (x1 - x0) * (y1 - y0);
    assert(v * (x1 - x0) * (y1 - y0) / area == v) by (nonlinear_arith)
        requires
            area == (x1 - x0) * (y1 - y0),
            x1 - x0 >= 1,
            y1 - y0 >= 1,
    ;
}

/// A screen of one colour converts to that colour at every output pixel,
/// whatever the output size (no darkened edges, no stray pixels).
pub proof fn law_solid_colour_survives_scaling(
    src: Seq<u8>,
    stride: int,
    sw: int,
    sh: int,
    w: int,
    h: int,
    ox: int,
    oy: int,
    r: int,
    g: int,
    b: int,
)
    requires
        0 <= ox < w <= sw,
        0 <= oy < h <= sh,
        solid(src, stride, sw, sh, r, g, b),
    ensures
        scaled_pixel(src, stride, sw, sh, w, h, ox, oy) == (r, g, b),
{
    assert forall|x: int, y: int| 0 <= x < sw && 0 <= y < sh implies #[trigger] chan(src, stride, x, y, 0) == r by {}
    assert forall|x: int, y: int| 0 <= x < sw && 0 <= y < sh implies #[trigger] chan(src, stride, x, y, 1) == g by {
        assert(chan(src, stride, x, y, 0) == r);
    }
    assert forall|x: int, y: int| 0 <= x < sw && 0 <= y < sh implies #[trigger] chan(src, stride, x, y, 2) == b by {
        assert(chan(src, stride, x, y, 0) == r);
    }
    lemma_avg_solid(src, stride, sw, sh, w, h, ox, oy, 0, r);
    lemma_avg_solid(src, stride, sw, sh, w, h, ox, oy, 1, g);
    lemma_avg_solid(src, stride, sw, sh, w, h, ox, oy, 2, b);
}

/// The limited-range encoding and decoding are a consistent pair: a grey
/// level comes back within one step, and black and white come back exactly.
pub proof fn law_grey_round_trip(v: u8)
    ensures
        ({
            let y = luma(v as int, v as int, v as int);
            let u = chroma_u(v as int, v as int, v as int);
            let w = chroma_v(v as int, v as int, v as int);
            let p = yuv_to_rgb(y, u, w);
            &&& u == 128 && w == 128
            &&& p.0 == p.1 && p.1 == p.2
            &&& v - 1 <= p.0 <= v + 1
            &&& (v == 0 ==> p.0 == 0)
            &&& (v == 255 ==> p.0 == 255)
        }),
{
    let x = v as u32;
    assert(x <= 255);
    let q = (220 * x + 128) / 256;
    let rr = (298 * q + 128) / 256;
    assert(x <= 255 ==> {
        let q = (220 * x + 128) / 256;
        let rr = (298 * q + 128) / 256;
        x <= rr + 1 && rr <= x + 1 && (x == 0 ==> rr == 0) && (x == 255 ==> rr == 255) && q <= 219
    }) by (bit_vector);
    assert(luma(v as int, v as int, v as int) == q + 16);
    assert(clamp_byte(298 * q + 128) == rr);
}


/// `clamp_byte(x)` through a non-negative numerator: `x + 65536` divided by
/// 256, less 256, clamped.
spec fn clamp_shifted(t: int) -> int {
    if t < 256 {
        0
    } else if t > 511 {
        255
    } else {
        t - 256
    }
}

proof fn lemma_clamp_shifted(x: int)
    requires
        x + 65536 >= 0,
    ensures
        clamp_byte(x) == clamp_shifted((x + 65536) / 256),
{
    assert((x + 65536) / 256 == x / 256 + 256);
}

proof fn lemma_red(ri: int, gi: int, bi: int)
    requires
        0 <= ri <= 255,
        0 <= gi <= 255,
        0 <= bi <= 255,
    ensures
        ({
            let l = (66 * ri + 129 * gi + 25 * bi + 128) / 256;
            let cv = (112 * ri + 32896 - 94 * gi - 18 * bi) / 256;
            let p = clamp_shifted((298 * l + 409 * cv + 13312) / 256);
            ri - 3 <= p <= ri + 3
        }),
{
    let l = (66 * ri + 129 * gi + 25 * bi + 128) / 256;
    let cv = (112 * ri + 32896 - 94 * gi - 18 * bi) / 256;
    let t = (298 * l + 409 * cv + 13312) / 256;
    assert(256 * l <= 66 * ri + 129 * gi + 25 * bi + 128 < 256 * l + 256);
    assert(256 * cv <= 112 * ri + 32896 - 94 * gi - 18 * bi < 256 * cv + 256);
    assert(256 * t <= 298 * l + 409 * cv + 13312 < 256 * t + 256);
}

proof fn lemma_green(ri: int, gi: int, bi: int)
    requires
        0 <= ri <= 255,
        0 <= gi <= 255,
        0 <= bi <= 255,
    ensures
        ({
            let l = (66 * ri + 129 * gi + 25 * bi + 128) / 256;
            let cu = (112 * bi + 32896 - 38 * ri - 74 * gi) / 256;
            let cv = (112 * ri + 32896 - 94 * gi - 18 * bi) / 256;
            let p = clamp_shifted((298 * l + 105088 - 100 * cu - 208 * cv) / 256);
            gi - 3 <= p <= gi + 3
        }),
{
    let l = (66 * ri + 129 * gi + 25 * bi + 128) / 256;
    let cu = (112 * bi + 32896 - 38 * ri - 74 * gi) / 256;
    let cv = (112 * ri + 32896 - 94 * gi - 18 * bi) / 256;
    let t = (298 * l + 105088 - 100 * cu - 208 * cv) / 256;
    assert(256 * l <= 66 * ri + 129 * gi + 25 * bi + 128 < 256 * l + 256);
    assert(256 * cu <= 112 * bi + 32896 - 38 * ri - 74 * gi < 256 * cu + 256);
    assert(256 * cv <= 112 * ri + 32896 - 94 * gi - 18 * bi < 256 * cv + 256);
    assert(256 * t <= 298 * l + 105088 - 100 * cu - 208 * cv < 256 * t + 256);
}

proof fn lemma_blue(ri: int, gi: int, bi: int)
    requires
        0 <= ri <= 255,
        0 <= gi <= 255,
        0 <= bi <= 255,
    ensures
        ({
            let l = (66 * ri + 129 * gi + 25 * bi + 128) / 256;
            let cu = (112 * bi + 32896 - 38 * ri - 74 * gi) / 256;
            let p = clamp_shifted((298 * l + 516 * cu - 384) / 256);
            bi - 3 <= p <= bi + 3
        }),
{
    let l = (66 * ri + 129 * gi + 25 * bi + 128) / 256;
    let cu = (112 * bi + 32896 - 38 * ri - 74 * gi) / 256;
    let t = (298 * l + 516 * cu - 384) / 256;
    assert(256 * l <= 66 * ri + 129 * gi + 25 * bi + 128 < 256 * l + 256);
    assert(256 * cu <= 112 * bi + 32896 - 38 * ri - 74 * gi < 256 * cu + 256);
    assert(256 * t <= 298 * l + 516 * cu - 384 < 256 * t + 256);
}

/// Encoding a colour and decoding it again changes no channel by more than
/// 3: the limited-range conversions in both directions fit together.
pub proof fn law_colour_round_trip(r: u8, g: u8, b: u8)
    ensures
        ({
            let (ri, gi, bi) = (r as int, g as int, b as int);
            let p = yuv_to_rgb(luma(ri, gi, bi), chroma_u(ri, gi, bi), chroma_v(ri, gi, bi));
            &&& ri - 3 <= p.0 <= ri + 3
            &&& gi - 3 <= p.1 <= gi + 3
            &&& bi - 3 <= p.2 <= bi + 3
        }),
{
    let (ri, gi, bi) = (r as int, g as int, b as int);
    let l = (66 * ri + 129 * gi + 25 * bi + 128) / 256;
    let cu = (112 * bi + 32896 - 38 * ri - 74 * gi) / 256;
    let cv = (112 * ri + 32896 - 94 * gi - 18 * bi) / 256;
    assert(luma(ri, gi, bi) == l + 16);
    assert(chroma_u(ri, gi, bi) == cu) by {
        let t = -38 * ri - 74 * gi + 112 * bi + 128;
        assert((t + 32768) / 256 == t / 256 + 128);
    }
    assert(chroma_v(ri, gi, bi) == cv) by {
        let t = 112 * ri - 94 * gi - 18 * bi + 128;
        assert((t + 32768) / 256 == t / 256 + 128);
    }
    assert(16 <= cu <= 240 && 16 <= cv <= 240 && 0 <= l <= 219);
    let c = 298 * l;
    let d = cu - 128;
    let e = cv - 128;
    lemma_clamp_shifted(c + 409 * e + 128);
    lemma_clamp_shifted(c - 100 * d - 208 * e + 128);
    lemma_clamp_shifted(c + 516 * d + 128);
    lemma_red(ri, gi, bi);
    lemma_green(ri, gi, bi);
    lemma_blue(ri, gi, bi);
}

proof fn lemma_limited_range(r: int, g: int, b: int)
    requires
        0 <= r <= 255,
        0 <= g <= 255,
        0 <= b <= 255,
    ensures
        16 <= luma(r, g, b) <= 235,
        16 <= chroma_u(r, g, b) <= 240,
        16 <= chroma_v(r, g, b) <= 240,
{
}

/// Every colour encodes into the limited range: luma in 16..=235 and both
/// chroma values in 16..=240.
pub proof fn law_limited_range(r: u8, g: u8, b: u8)
    ensures
        16 <= luma(r as int, g as int, b as int) <= 235,
        16 <= chroma_u(r as int, g as int, b as int) <= 240,
        16 <= chroma_v(r as int, g as int, b as int) <= 240,
{
    lemma_limited_range(r as int, g as int, b as int);
}

/// Output pixel `i` of a `w`-wide picture lies in its row and column bounds.
proof fn lemma_index_split(i: int, w: int, h: int)
    requires
        0 < w,
        0 <= i < w * h,
    ensures
        0 <= i % w < w,
        0 <= i / w < h,
{
    assert(0 <= i % w < w && 0 <= i / w < h) by (nonlinear_arith)
        requires
            0 < w,
            0 <= i < w * h,
    ;
}

/// Chroma sample `i` covers output pixels inside the picture.
proof fn lemma_chroma_index(i: int, w: int, h: int)
    requires
        0 < w,
        0 < h,
        0 <= i < (w / 2) * (h / 2),
    ensures
        0 <= 2 * (i % (w / 2)) + 1 < w,
        0 <= 2 * (i / (w / 2)) + 1 < h,
{
    let uw = w / 2;
    assert(uw > 0) by (nonlinear_arith)
        requires
            0 <= i < (w / 2) * (h / 2),
            uw == w / 2,
            0 < h,
            0 < w,
    ;
    lemma_index_split(i, uw, h / 2);
}

proof fn lemma_pixel_in_range(src: Seq<u8>, stride: int, sw: int, sh: int, w: int, h: int, ox: int, oy: int)
    requires
        0 <= ox < w <= sw,
        0 <= oy < h <= sh,
    ensures
        0 <= scaled_pixel(src, stride, sw, sh, w, h, ox, oy).0 <= 255,
        0 <= scaled_pixel(src, stride, sw, sh, w, h, ox, oy).1 <= 255,
        0 <= scaled_pixel(src, stride, sw, sh, w, h, ox, oy).2 <= 255,
{
    lemma_box_avg_bounds(src, stride, sw, sh, w, h, ox, oy, 0);
    lemma_box_avg_bounds(src, stride, sw, sh, w, h, ox, oy, 1);
    lemma_box_avg_bounds(src, stride, sw, sh, w, h, ox, oy, 2);
}

/// Every sample of a converted picture is in the limited range: luma in
/// 16..=235, chroma in 16..=240, whatever the source holds.
pub proof fn law_converted_samples_in_limited_range(src: Seq<u8>, stride: int, sw: int, sh: int, w: int, h: int)
    requires
        conversion_applies(sw, sh, w, h),
    ensures
        forall|i: int| 0 <= i < w * h ==> 16 <= #[trigger] luma_at(src, stride, sw, sh, w, h, i) <= 235,
        forall|i: int|
            0 <= i < (w / 2) * (h / 2) ==> 16 <= #[trigger] chroma_u_at(src, stride, sw, sh, w, h, i) <= 240,
        forall|i: int|
            0 <= i < (w / 2) * (h / 2) ==> 16 <= #[trigger] chroma_v_at(src, stride, sw, sh, w, h, i) <= 240,
{
    assert forall|i: int| 0 <= i < w * h implies 16 <= #[trigger] luma_at(src, stride, sw, sh, w, h, i) <= 235 by {
        lemma_index_split(i, w, h);
        lemma_pixel_in_range(src, stride, sw, sh, w, h, i % w, i / w);
        let p = scaled_pixel(src, stride, sw, sh, w, h, i % w, i / w);
        lemma_limited_range(p.0, p.1, p.2);
    }
    assert forall|i: int| 0 <= i < (w / 2) * (h / 2) implies 16 <= #[trigger] chroma_u_at(src, stride, sw, sh, w, h, i)
        <= 240 by {
        lemma_chroma_in_range(src, stride, sw, sh, w, h, i);
    }
    assert forall|i: int| 0 <= i < (w / 2) * (h / 2) implies 16 <= #[trigger] chroma_v_at(src, stride, sw, sh, w, h, i)
        <= 240 by {
        lemma_chroma_in_range(src, stride, sw, sh, w, h, i);
    }
}

proof fn lemma_chroma_in_range(src: Seq<u8>, stride: int, sw: int, sh: int, w: int, h: int, i: int)
    requires
        conversion_applies(sw, sh, w, h),
        0 <= i < (w / 2) * (h / 2),
    ensures
        16 <= chroma_u_at(src, stride, sw, sh, w, h, i) <= 240,
        16 <= chroma_v_at(src, stride, sw, sh, w, h, i) <= 240,
{
    lemma_chroma_index(i, w, h);
    let cx = i % (w / 2);
    let cy = i / (w / 2);
    lemma_pixel_in_range(src, stride, sw, sh, w, h, 2 * cx, 2 * cy);
    lemma_pixel_in_range(src, stride, sw, sh, w, h, 2 * cx + 1, 2 * cy);
    lemma_pixel_in_range(src, stride, sw, sh, w, h, 2 * cx, 2 * cy + 1);
    lemma_pixel_in_range(src, stride, sw, sh, w, h, 2 * cx + 1, 2 * cy + 1);
    let c = chroma_rgb(src, stride, sw, sh, w, h, cx, cy);
    lemma_limited_range(c.0, c.1, c.2);
}

/// A screen of one colour converts to planes that hold that colour's luma
/// and chroma in every sample, whatever the output size.
pub proof fn law_solid_colour_fills_the_planes(
    src: Seq<u8>,
    stride: int,
    sw: int,
    sh: int,
    w: int,
    h: int,
    r: int,
    g: int,
    b: int,
)
    requires
        conversion_applies(sw, sh, w, h),
        solid(src, stride, sw, sh, r, g, b),
    ensures
        forall|i: int| 0 <= i < w * h ==> #[trigger] luma_at(src, stride, sw, sh, w, h, i) == luma(r, g, b),
        forall|i: int|
            0 <= i < (w / 2) * (h / 2) ==> #[trigger] chroma_u_at(src, stride, sw, sh, w, h, i) == chroma_u(r, g, b),
        forall|i: int|
            0 <= i < (w / 2) * (h / 2) ==> #[trigger] chroma_v_at(src, stride, sw, sh, w, h, i) == chroma_v(r, g, b),
{
    assert forall|i: int| 0 <= i < w * h implies #[trigger] luma_at(src, stride, sw, sh, w, h, i) == luma(r, g, b) by {
        lemma_index_split(i, w, h);
        law_solid_colour_survives_scaling(src, stride, sw, sh, w, h, i % w, i / w, r, g, b);
    }
    assert forall|i: int| 0 <= i < (w / 2) * (h / 2) implies #[trigger] chroma_u_at(src, stride, sw, sh, w, h, i)
        == chroma_u(r, g, b) by {
        lemma_solid_chroma(src, stride, sw, sh, w, h, r, g, b, i);
    }
    assert forall|i: int| 0 <= i < (w / 2) * (h / 2) implies #[trigger] chroma_v_at(src, stride, sw, sh, w, h, i)
        == chroma_v(r, g, b) by {
        lemma_solid_chroma(src, stride, sw, sh, w, h, r, g, b, i);
    }
}

proof fn lemma_solid_chroma(src: Seq<u8>, stride: int, sw: int, sh: int, w: int, h: int, r: int, g: int, b: int, i: int)
    requires
        conversion_applies(sw, sh, w, h),
        solid(src, stride, sw, sh, r, g, b),
        0 <= i < (w / 2) * (h / 2),
    ensures
        chroma_rgb(src, stride, sw, sh, w, h, i % (w / 2), i / (w / 2)) == (r, g, b),
{
    lemma_chroma_index(i, w, h);
    let cx = i % (w / 2);
    let cy = i / (w / 2);
    law_solid_colour_survives_scaling(src, stride, sw, sh, w, h, 2 * cx, 2 * cy, r, g, b);
    law_solid_colour_survives_scaling(src, stride, sw, sh, w, h, 2 * cx + 1, 2 * cy, r, g, b);
    law_solid_colour_survives_scaling(src, stride, sw, sh, w, h, 2 * cx, 2 * cy + 1, r, g, b);
    law_solid_colour_survives_scaling(src, stride, sw, sh, w, h, 2 * cx + 1, 2 * cy + 1, r, g, b);
}

/// Two sources agree on the colour bytes (B, G, R) of every visible pixel.
pub open spec fn same_visible_colours(a: Seq<u8>, b: Seq<u8>, stride: int, sw: int, sh: int) -> bool {
    forall|x: int, y: int, c: int|
        0 <= x < sw && 0 <= y < sh && 0 <= c < 3 ==> #[trigger] chan(a, stride, x, y, c) == chan(b, stride, x, y, c)
}

proof fn lemma_row_sum_same(a: Seq<u8>, b: Seq<u8>, stride: int, sw: int, sh: int, c: int, y: int, x0: int, x1: int)
    requires
        same_visible_colours(a, b, stride, sw, sh),
        0 <= c < 3,
        0 <= y < sh,
        0 <= x0,
        x1 <= sw,
    ensures
        row_sum(a, stride, c, y, x0, x1) == row_sum(b, stride, c, y, x0, x1),
    decreases x1 - x0,
{
    if x1 > x0 {
        lemma_row_sum_same(a, b, stride, sw, sh, c, y, x0, x1 - 1);
        assert(chan(a, stride, x1 - 1, y, c) == chan(b, stride, x1 - 1, y, c));
    }
}

proof fn lemma_box_sum_same(a: Seq<u8>, b: Seq<u8>, stride: int, sw: int, sh: int, c: int, x0: int, x1: int, y0: int, y1: int)
    requires
        same_visible_colours(a, b, stride, sw, sh),
        0 <= c < 3,
        0 <= x0,
        x1 <= sw,
        0 <= y0,
        y1 <= sh,
    ensures
        box_sum(a, stride, c, x0, x1, y0, y1) == box_sum(b, stride, c, x0, x1, y0, y1),
    decreases y1 - y0,
{
    if y1 > y0 {
        lemma_box_sum_same(a, b, stride, sw, sh, c, x0, x1, y0, y1 - 1);
        lemma_row_sum_same(a, b, stride, sw, sh, c, y1 - 1, x0, x1);
    }
}

proof fn lemma_cell_inside(i: int, s: int, d: int)
    requires
        0 <= i < d <= s,
    ensures
        0 <= cell_lo(i, s, d),
        cell_lo(i + 1, s, d) <= s,
{
    lemma_cell_lo_mono(i, s, d);
    assert((i + 1) * s / d <= s) by (nonlinear_arith)
        requires
            0 <= i + 1 <= d,
            0 <= s,
            0 < d,
    ;
}

proof fn lemma_pixel_same(a: Seq<u8>, b: Seq<u8>, stride: int, sw: int, sh: int, w: int, h: int, ox: int, oy: int)
    requires
        same_visible_colours(a, b, stride, sw, sh),
        0 <= ox < w <= sw,
        0 <= oy < h <= sh,
    ensures
        scaled_pixel(a, stride, sw, sh, w, h, ox, oy) == scaled_pixel(b, stride, sw, sh, w, h, ox, oy),
{
    lemma_cell_inside(ox, sw, w);
    lemma_cell_inside(oy, sh, h);
    let x0 = cell_lo(ox, sw, w);
    let x1 = cell_lo(ox + 1, sw, w);
    let y0 = cell_lo(oy, sh, h);
    let y1 = cell_lo(oy + 1, sh, h);
    lemma_box_sum_same(a, b, stride, sw, sh, 0, x0, x1, y0, y1);
    lemma_box_sum_same(a, b, stride, sw, sh, 1, x0, x1, y0, y1);
    lemma_box_sum_same(a, b, stride, sw, sh, 2, x0, x1, y0, y1);
}

proof fn lemma_chroma_same(a: Seq<u8>, b: Seq<u8>, stride: int, sw: int, sh: int, w: int, h: int, i: int)
    requires
        conversion_applies(sw, sh, w, h),
        same_visible_colours(a, b, stride, sw, sh),
        0 <= i < (w / 2) * (h / 2),
    ensures
        chroma_u_at(a, stride, sw, sh, w, h, i) == chroma_u_at(b, stride, sw, sh, w, h, i),
        chroma_v_at(a, stride, sw, sh, w, h, i) == chroma_v_at(b, stride, sw, sh, w, h, i),
{
    lemma_chroma_index(i, w, h);
    let cx = i % (w / 2);
    let cy = i / (w / 2);
    lemma_pixel_same(a, b, stride, sw, sh, w, h, 2 * cx, 2 * cy);
    lemma_pixel_same(a, b, stride, sw, sh, w, h, 2 * cx + 1, 2 * cy);
    lemma_pixel_same(a, b, stride, sw, sh, w, h, 2 * cx, 2 * cy + 1);
    lemma_pixel_same(a, b, stride, sw, sh, w, h, 2 * cx + 1, 2 * cy + 1);
}

/// A conversion reads only the colour bytes of visible pixels: two sources
/// that agree on them (alpha and row padding may differ) convert to the same
/// picture, whatever either buffer held before. In particular converting the
/// same frame twice gives equal pictures, so an unchanged screen is seen as
/// unchanged.
pub proof fn law_same_visible_colours_same_picture(
    p: I420,
    q: I420,
    a: Seq<u8>,
    b: Seq<u8>,
    stride: int,
    sw: int,
    sh: int,
    w: int,
    h: int,
)
    requires
        conversion_applies(sw, sh, w, h),
        same_visible_colours(a, b, stride, sw, sh),
        holds_conversion(p, a, stride, sw, sh, w, h),
        holds_conversion(q, b, stride, sw, sh, w, h),
    ensures
        p.spec_width() == q.spec_width(),
        p.spec_height() == q.spec_height(),
        p.plane_y() == q.plane_y(),
        p.plane_u() == q.plane_u(),
        p.plane_v() == q.plane_v(),
{
    assert forall|i: int| 0 <= i < w * h implies #[trigger] p.plane_y()[i] == q.plane_y()[i] by {
        lemma_index_split(i, w, h);
        lemma_pixel_same(a, b, stride, sw, sh, w, h, i % w, i / w);
    }
    assert forall|i: int| 0 <= i < (w / 2) * (h / 2) implies #[trigger] p.plane_u()[i] == q.plane_u()[i] by {
        lemma_chroma_same(a, b, stride, sw, sh, w, h, i);
    }
    assert forall|i: int| 0 <= i < (w / 2) * (h / 2) implies #[trigger] p.plane_v()[i] == q.plane_v()[i] by {
        lemma_chroma_same(a, b, stride, sw, sh, w, h, i);
    }
    assert(p.plane_y() =~= q.plane_y());
    assert(p.plane_u() =~= q.plane_u());
    assert(p.plane_v() =~= q.plane_v());
}

} // verus!
