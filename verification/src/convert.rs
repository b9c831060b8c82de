//! Colour conversion and downscaling for the screen stream, in integer
//! fixed-point arithmetic. The encode side produces BT.601 limited range
//! (Y 16..235, U/V 16..240) and the decode side expands the same range back,
//! so the two form a consistent pair.

use vstd::prelude::*;

verus! {

/// `x` rounded down to an even number (`x & !1`).
pub open spec fn even_down(x: int) -> int {
    x - x % 2
}

/// The starting resolution: screens wider than 2560 pixels (4K) are halved;
/// both sides are rounded down to even numbers.
pub open spec fn auto_size_spec(src_w: int, src_h: int) -> (int, int) {
    if src_w <= 2560 {
        (even_down(src_w), even_down(src_h))
    } else {
        (even_down(src_w / 2), even_down(src_h / 2))
    }
}

/// The starting output size for a `src_w` x `src_h` screen. From there the
/// capture loop measures what the machine keeps up with.
pub fn auto_size(src_w: usize, src_h: usize) -> (r: (usize, usize))
    ensures
        (r.0 as int, r.1 as int) == auto_size_spec(src_w as int, src_h as int),
{
    if src_w <= 2560 {
        return (src_w - src_w % 2, src_h - src_h % 2);
    }
    (src_w / 2 - (src_w / 2) % 2, src_h / 2 - (src_h / 2) % 2)
}

/// The even height that keeps the source's aspect ratio at width `dst_w`.
pub open spec fn fit_height_spec(src_w: int, src_h: int, dst_w: int) -> int {
    if src_w == 0 {
        0
    } else {
        even_down(dst_w * src_h / src_w)
    }
}

/// The height for width `dst_w` at the source's aspect ratio, rounded down to
/// an even number; 0 for an empty source.
pub fn fit_height(src_w: usize, src_h: usize, dst_w: usize) -> (r: usize)
    requires
        dst_w * src_h <= usize::MAX,
    ensures
        r as int == fit_height_spec(src_w as int, src_h as int, dst_w as int),
{
    if src_w == 0 {
        return 0;
    }
    let q = dst_w * src_h / src_w;
    q - q % 2
}

// BT.601 limited range, coefficients scaled to 8-bit fixed point.

/// Luma of an RGB colour.
pub open spec fn luma(r: int, g: int, b: int) -> int {
    (66 * r + 129 * g + 25 * b + 128) / 256 + 16
}

/// Blue-difference chroma of an RGB colour (floor division).
pub open spec fn chroma_u(r: int, g: int, b: int) -> int {
    (-38 * r - 74 * g + 112 * b + 128) / 256 + 128
}

/// Red-difference chroma of an RGB colour (floor division).
pub open spec fn chroma_v(r: int, g: int, b: int) -> int {
    (112 * r - 94 * g - 18 * b + 128) / 256 + 128
}

fn rgb_to_y(r: u32, g: u32, b: u32) -> (y: u8)
    requires
        r <= 255,
        g <= 255,
        b <= 255,
    ensures
        y as int == luma(r as int, g as int, b as int),
{
    let t = 66 * r + 129 * g + 25 * b + 128;
    assert(t / 256 <= 219) by (nonlinear_arith)
        requires
            t == 66 * r + 129 * g + 25 * b + 128,
            r <= 255,
            g <= 255,
            b <= 255,
    ;
    (t / 256 + 16) as u8
}

fn rgb_to_u(r: u32, g: u32, b: u32) -> (u: u8)
    requires
        r <= 255,
        g <= 255,
        b <= 255,
    ensures
        u as int == chroma_u(r as int, g as int, b as int),
{
    // Shifted by 128 * 256 so that the numerator stays non-negative.
    let t = 112 * b + 128 + 32768 - 38 * r - 74 * g;
    proof {
        let x = -38 * r - 74 * g + 112 * b + 128;
        assert(t == x + 32768);
        assert((x + 32768) / 256 == x / 256 + 128) by (nonlinear_arith);
        assert(t / 256 <= 240) by (nonlinear_arith)
            requires
                t == 112 * b + 128 + 32768 - 38 * r - 74 * g,
                r <= 255,
                g <= 255,
                b <= 255,
        ;
    }
    (t / 256) as u8
}

fn rgb_to_v(r: u32, g: u32, b: u32) -> (v: u8)
    requires
        r <= 255,
        g <= 255,
        b <= 255,
    ensures
        v as int == chroma_v(r as int, g as int, b as int),
{
    let t = 112 * r + 128 + 32768 - 94 * g - 18 * b;
    proof {
        let x = 112 * r - 94 * g - 18 * b + 128;
        assert(t == x + 32768);
        assert((x + 32768) / 256 == x / 256 + 128) by (nonlinear_arith);
        assert(t / 256 <= 240) by (nonlinear_arith)
            requires
                t == 112 * r + 128 + 32768 - 94 * g - 18 * b,
                r <= 255,
                g <= 255,
                b <= 255,
        ;
    }
    (t / 256) as u8
}


/// Start of output cell `i` when `s` source units are split into `d` cells.
pub open spec fn cell_lo(i: int, s: int, d: int) -> int {
    i * s / d
}

/// The channel `c` (0 red, 1 green, 2 blue) of source pixel (`x`, `y`) of a
/// BGRA image with row stride `stride` (bytes B, G, R, A).
pub open spec fn chan(src: Seq<u8>, stride: int, x: int, y: int, c: int) -> int {
    src[y * stride + x * 4 + 2 - c] as int
}

/// Sum of channel `c` over pixels `x0..x1` of row `y`.
pub open spec fn row_sum(src: Seq<u8>, stride: int, c: int, y: int, x0: int, x1: int) -> int
    decreases x1 - x0,
{
    if x1 <= x0 {
        0
    } else {
        row_sum(src, stride, c, y, x0, x1 - 1) + chan(src, stride, x1 - 1, y, c)
    }
}

/// Sum of channel `c` over the box `x0..x1` x `y0..y1`.
pub open spec fn box_sum(src: Seq<u8>, stride: int, c: int, x0: int, x1: int, y0: int, y1: int) -> int
    decreases y1 - y0,
{
    if y1 <= y0 {
        0
    } else {
        box_sum(src, stride, c, x0, x1, y0, y1 - 1) + row_sum(src, stride, c, y1 - 1, x0, x1)
    }
}

/// Channel `c` of output pixel (`ox`, `oy`) when a `sw` x `sh` source is
/// scaled to `w` x `h`: the average over the source cell that the output
/// pixel covers (box filter), rounded down.
pub open spec fn box_avg(src: Seq<u8>, stride: int, sw: int, sh: int, w: int, h: int, ox: int, oy: int, c: int) -> int {
    let x0 = cell_lo(ox, sw, w);
    let x1 = cell_lo(ox + 1, sw, w);
    let y0 = cell_lo(oy, sh, h);
    let y1 = cell_lo(oy + 1, sh, h);
    box_sum(src, stride, c, x0, x1, y0, y1) / ((x1 - x0) * (y1 - y0))
}

/// The number of source columns in each output column.
pub open spec fn spec_counts(sw: int, dw: int) -> Seq<u32> {
    Seq::new(dw as nat, |x: int| (cell_lo(x + 1, sw, dw) - cell_lo(x, sw, dw)) as u32)
}

/// The largest number of source units in one cell: `s / d` rounded up,
/// bounded by `s / d + 1`.
pub open spec fn cell_bound(s: int, d: int) -> int {
    s / d + 1
}

proof fn lemma_cell_width(i: int, s: int, d: int)
    requires
        0 <= i,
        0 < d <= s,
    ensures
        1 <= cell_lo(i + 1, s, d) - cell_lo(i, s, d) <= cell_bound(s, d),
        0 <= cell_lo(i, s, d),
{
    let a = i * s;
    assert((i + 1) * s == a + s) by (nonlinear_arith)
        requires
            a == i * s,
    ;
    assert(a >= 0) by (nonlinear_arith)
        requires
            i >= 0,
            s >= 0,
            a == i * s,
    ;
    let qa = a / d;
    let ra = a % d;
    let qs = s / d;
    let rs = s % d;
    assert(a == d * qa + ra && 0 <= ra < d) by (nonlinear_arith)
        requires
            d > 0,
            qa == a / d,
            ra == a % d,
    ;
    assert(s == d * qs + rs && 0 <= rs < d) by (nonlinear_arith)
        requires
            d > 0,
            qs == s / d,
            rs == s % d,
    ;
    assert(qs >= 1) by (nonlinear_arith)
        requires
            d > 0,
            s >= d,
            s == d * qs + rs,
            0 <= rs < d,
    ;
    assert(a + s == d * (qa + qs) + (ra + rs)) by (nonlinear_arith)
        requires
            a == d * qa + ra,
            s == d * qs + rs,
    ;
    let q = (a + s) / d;
    assert(q == qa + qs || q == qa + qs + 1) by (nonlinear_arith)
        requires
            d > 0,
            a + s == d * (qa + qs) + (ra + rs),
            0 <= ra < d,
            0 <= rs < d,
            q == (a + s) / d,
    ;
    assert(qa >= 0) by (nonlinear_arith)
        requires
            d > 0,
            a >= 0,
            qa == a / d,
    ;
}

/// An I420 (YUV 4:2:0) frame buffer, handed to the encoder as it is and
/// reused from frame to frame.
pub struct I420 {
    width: usize,
    height: usize,
    y: Vec<u8>,
    u: Vec<u8>,
    v: Vec<u8>,
    /// Averaged RGB of one output row (scaling scratch).
    row: Vec<(u32, u32, u32)>,
    /// Pairwise sums of an even output row, for chroma.
    crow: Vec<(u32, u32, u32)>,
    /// How many source pixels feed each output column.
    counts: Vec<u32>,
    /// The (source width, output width) that `counts` was built for.
    counts_for: (usize, usize),
}

impl I420 {
    /// The buffer's sizes are consistent.
    pub closed spec fn wf(&self) -> bool {
        &&& self.y@.len() == self.width * self.height
        &&& self.u@.len() == (self.width / 2) * (self.height / 2)
        &&& self.v@.len() == (self.width / 2) * (self.height / 2)
        &&& self.row@.len() == self.width
        &&& self.crow@.len() == self.width / 2
        &&& self.counts@ == spec_counts(self.counts_for.0 as int, self.counts_for.1 as int)
    }

    /// Width in pixels.
    pub closed spec fn spec_width(&self) -> nat {
        self.width as nat
    }

    /// Height in pixels.
    pub closed spec fn spec_height(&self) -> nat {
        self.height as nat
    }

    /// The luma plane, row by row (`width` bytes per row).
    pub closed spec fn plane_y(&self) -> Seq<u8> {
        self.y@
    }

    /// The blue-difference plane (`width / 2` bytes per row, `height / 2` rows).
    pub closed spec fn plane_u(&self) -> Seq<u8> {
        self.u@
    }

    /// The red-difference plane (`width / 2` bytes per row, `height / 2` rows).
    pub closed spec fn plane_v(&self) -> Seq<u8> {
        self.v@
    }

    /// A consistent buffer's planes have the sizes of its picture: `width`
    /// bytes for each luma row, `width / 2` for each of `height / 2` chroma rows.
    pub proof fn lemma_plane_sizes(&self)
        requires
            self.wf(),
        ensures
            self.plane_y().len() == self.spec_width() * self.spec_height(),
            self.plane_u().len() == (self.spec_width() / 2) * (self.spec_height() / 2),
            self.plane_v().len() == (self.spec_width() / 2) * (self.spec_height() / 2),
    {
    }

    /// An empty buffer (0 x 0).
    pub fn new() -> (r: Self)
        ensures
            r.wf(),
            r.spec_width() == 0,
            r.spec_height() == 0,
            r.plane_y().len() == 0,
            r.plane_u().len() == 0,
            r.plane_v().len() == 0,
    {
        let r = I420 {
            width: 0,
            height: 0,
            y: Vec::new(),
            u: Vec::new(),
            v: Vec::new(),
            row: Vec::new(),
            crow: Vec::new(),
            counts: Vec::new(),
            counts_for: (0, 0),
        };
        assert(r.counts@ =~= spec_counts(0, 0));
        r
    }

    /// Whether two frames are the same picture: same size and equal planes.
    pub fn same_as(&self, other: &Self) -> (r: bool)
        ensures
            r == (self.spec_width() == other.spec_width() && self.spec_height() == other.spec_height()
                && self.plane_y() == other.plane_y() && self.plane_u() == other.plane_u()
                && self.plane_v() == other.plane_v()),
    {
        let r = self.width == other.width && self.height == other.height && bytes_eq(&self.y, &other.y)
            && bytes_eq(&self.u, &other.u) && bytes_eq(&self.v, &other.v);
        r
    }

    /// (width, height).
    pub fn dimensions(&self) -> (r: (usize, usize))
        ensures
            r.0 == self.spec_width(),
            r.1 == self.spec_height(),
    {
        (self.width, self.height)
    }

    /// Row strides of the three planes: (width, width / 2, width / 2).
    pub fn strides(&self) -> (r: (usize, usize, usize))
        ensures
            r == (self.spec_width() as usize, (self.spec_width() / 2) as usize, (self.spec_width() / 2) as usize),
    {
        (self.width, self.width / 2, self.width / 2)
    }

    /// The luma plane.
    pub fn y(&self) -> (r: &[u8])
        ensures
            r@ == self.plane_y(),
    {
        self.y.as_slice()
    }

    /// The blue-difference plane.
    pub fn u(&self) -> (r: &[u8])
        ensures
            r@ == self.plane_u(),
    {
        self.u.as_slice()
    }

    /// The red-difference plane.
    pub fn v(&self) -> (r: &[u8])
        ensures
            r@ == self.plane_v(),
    {
        self.v.as_slice()
    }
}

impl I420 {
    /// Sizes the buffer for `w` x `h` (keeping it when the size is unchanged).
    fn resize(&mut self, w: usize, h: usize)
        requires
            old(self).wf(),
            w * h <= usize::MAX,
        ensures
            final(self).wf(),
            final(self).width == w,
            final(self).height == h,
            final(self).counts == old(self).counts,
            final(self).counts_for == old(self).counts_for,
    {
        if self.width == w && self.height == h {
            return;
        }
        self.width = w;
        self.height = h;
        self.y.clear();
        self.y.resize(w * h, 0);
        assert((w / 2) * (h / 2) <= w * h) by (nonlinear_arith);
        self.u.clear();
        self.u.resize((w / 2) * (h / 2), 0);
        self.v.clear();
        self.v.resize((w / 2) * (h / 2), 0);
        self.row.clear();
        self.row.resize(w, (0, 0, 0));
        self.crow.clear();
        self.crow.resize(w / 2, (0, 0, 0));
    }

    /// Builds (when needed) the per-column source pixel counts for a source of
    /// width `src_w` scaled to this buffer's width. The cells tile the source
    /// row without gaps or overlap.
    fn ensure_counts(&mut self, src_w: usize)
        requires
            old(self).wf(),
            old(self).width * src_w <= usize::MAX,
        ensures
            final(self).wf(),
            final(self).width == old(self).width,
            final(self).height == old(self).height,
            final(self).y == old(self).y,
            final(self).u == old(self).u,
            final(self).v == old(self).v,
            final(self).row == old(self).row,
            final(self).crow == old(self).crow,
            final(self).counts_for == (src_w, old(self).width),
    {
        let dst_w = self.width;
        if self.counts_for.0 == src_w && self.counts_for.1 == dst_w {
            return;
        }
        let ghost old_self = *self;
        self.counts.clear();
        self.counts.reserve(dst_w);
        let mut x: usize = 0;
        while x < dst_w
            invariant
                x <= dst_w,
                dst_w == self.width,
                self.width == old_self.width,
                self.height == old_self.height,
                self.y == old_self.y,
                self.u == old_self.u,
                self.v == old_self.v,
                self.row == old_self.row,
                self.crow == old_self.crow,
                self.counts_for == old_self.counts_for,
                dst_w * src_w <= usize::MAX,
                self.counts@ =~= spec_counts(src_w as int, dst_w as int).subrange(0, x as int),
            decreases dst_w - x,
        {
            proof {
                assert((x + 1) * src_w <= dst_w * src_w) by (nonlinear_arith)
                    requires
                        x < dst_w,
                ;
                assert(x * src_w <= (x + 1) * src_w) by (nonlinear_arith);
                assert((x * src_w) / (dst_w as int) <= ((x + 1) * src_w) / (dst_w as int)) by (nonlinear_arith)
                    requires
                        x * src_w <= (x + 1) * src_w,
                        dst_w > 0,
                ;
            }
            let x0 = x * src_w / dst_w;
            let x1 = ((x + 1) * src_w) / dst_w;
            self.counts.push((x1 - x0) as u32);
            x = x + 1;
        }
        assert(self.counts@ =~= spec_counts(src_w as int, dst_w as int));
        self.counts_for = (src_w, dst_w);
    }
}

/// Takes one source row as it is (no scaling): BGRA to RGB.
fn copy_row(src: &[u8], stride: usize, oy: usize, out: &mut Vec<(u32, u32, u32)>)
    requires
        oy * stride + old(out)@.len() * 4 <= src@.len(),
    ensures
        final(out)@.len() == old(out)@.len(),
        forall|k: int|
            0 <= k < final(out)@.len() ==> #[trigger] final(out)@[k] == (
                chan(src@, stride as int, k, oy as int, 0) as u32,
                chan(src@, stride as int, k, oy as int, 1) as u32,
                chan(src@, stride as int, k, oy as int, 2) as u32,
            ),
{
    let n = out.len();
    let slen = src.len();
    assert(oy * stride <= slen);
    let base = oy * stride;
    let mut k: usize = 0;
    while k < n
        invariant
            n == out@.len(),
            k <= n,
            base == oy * stride,
            base + n * 4 <= src@.len(),
            slen == src@.len(),
            forall|j: int|
                0 <= j < k ==> #[trigger] out@[j] == (
                    chan(src@, stride as int, j, oy as int, 0) as u32,
                    chan(src@, stride as int, j, oy as int, 1) as u32,
                    chan(src@, stride as int, j, oy as int, 2) as u32,
                ),
        decreases n - k,
    {
        assert(k * 4 + 4 <= n * 4) by (nonlinear_arith)
            requires
                k < n,
        ;
        let off = base + k * 4;
        out[k] = (src[off + 2] as u32, src[off + 1] as u32, src[off] as u32);
        k = k + 1;
    }
}

proof fn lemma_row_sum_bounds(src: Seq<u8>, stride: int, c: int, y: int, x0: int, x1: int)
    requires
        x0 <= x1,
    ensures
        0 <= row_sum(src, stride, c, y, x0, x1) <= 255 * (x1 - x0),
    decreases x1 - x0,
{
    if x1 > x0 {
        lemma_row_sum_bounds(src, stride, c, y, x0, x1 - 1);
    }
}

proof fn lemma_box_sum_bounds(src: Seq<u8>, stride: int, c: int, x0: int, x1: int, y0: int, y1: int)
    requires
        x0 <= x1,
        y0 <= y1,
    ensures
        0 <= box_sum(src, stride, c, x0, x1, y0, y1) <= 255 * (x1 - x0) * (y1 - y0),
    decreases y1 - y0,
{
    if y1 > y0 {
        lemma_box_sum_bounds(src, stride, c, x0, x1, y0, y1 - 1);
        lemma_row_sum_bounds(src, stride, c, y1 - 1, x0, x1);
        assert(255 * (x1 - x0) * (y1 - 1 - y0) + 255 * (x1 - x0) == 255 * (x1 - x0) * (y1 - y0))
            by (nonlinear_arith);
    }
}

/// The sums of the three channels over a box.
pub open spec fn box_sums(src: Seq<u8>, stride: int, x0: int, x1: int, y0: int, y1: int) -> (int, int, int) {
    (
        box_sum(src, stride, 0, x0, x1, y0, y1),
        box_sum(src, stride, 1, x0, x1, y0, y1),
        box_sum(src, stride, 2, x0, x1, y0, y1),
    )
}

/// Output column `k`'s channel sums over source rows `y0..y1`.
spec fn col_sums(src: Seq<u8>, stride: int, sw: int, dw: int, k: int, y0: int, y1: int) -> (int, int, int) {
    box_sums(src, stride, cell_lo(k, sw, dw), cell_lo(k + 1, sw, dw), y0, y1)
}

spec fn as_u32s(t: (int, int, int)) -> (u32, u32, u32) {
    (t.0 as u32, t.1 as u32, t.2 as u32)
}

/// One output row: averages source rows `y0..y1` over the column cells that
/// `counts` describes (box filter). The source row is walked once in order,
/// moving to the next cell when the current one's count is used up.
#[verifier::spinoff_prover]
fn downsample_row(
    src: &[u8],
    stride: usize,
    src_w: usize,
    y0: usize,
    y1: usize,
    counts: &[u32],
    out: &mut Vec<(u32, u32, u32)>,
)
    requires
        old(out)@.len() == counts@.len(),
        0 < counts@.len() <= src_w,
        counts@ == spec_counts(src_w as int, counts@.len() as int),
        y0 < y1,
        (y1 - 1) * stride + src_w * 4 <= src@.len(),
        cell_bound(src_w as int, counts@.len() as int) * (y1 - y0) * 255 <= u32::MAX,
    ensures
        final(out)@.len() == old(out)@.len(),
        forall|k: int|
            0 <= k < final(out)@.len() ==> {
                let x0 = cell_lo(k, src_w as int, counts@.len() as int);
                let x1 = cell_lo(k + 1, src_w as int, counts@.len() as int);
                let area = (x1 - x0) * (y1 - y0);
                #[trigger] final(out)@[k] == (
                    (box_sum(src@, stride as int, 0, x0, x1, y0 as int, y1 as int) / area) as u32,
                    (box_sum(src@, stride as int, 1, x0, x1, y0 as int, y1 as int) / area) as u32,
                    (box_sum(src@, stride as int, 2, x0, x1, y0 as int, y1 as int) / area) as u32,
                )
            },
{
    let dw = out.len();
    let slen = src.len();
    let ghost sw = src_w as int;
    let ghost st = stride as int;
    let ghost sv = src@;
    let mut k: usize = 0;
    while k < dw
        invariant
            dw == out@.len(),
            k <= dw,
            forall|j: int| 0 <= j < k ==> #[trigger] out@[j] == (0u32, 0u32, 0u32),
        decreases dw - k,
    {
        out[k] = (0, 0, 0);
        k = k + 1;
    }
    proof {
        assert forall|j: int| 0 <= j < dw implies #[trigger] out@[j] == as_u32s(
            col_sums(sv, st, sw, dw as int, j, y0 as int, y0 as int),
        ) by {
            assert(out@[j] == (0u32, 0u32, 0u32));
        }
    }
    let mut sy: usize = y0;
    while sy < y1
        invariant
            dw == out@.len() == counts@.len(),
            0 < dw <= src_w,
            counts@ == spec_counts(src_w as int, dw as int),
            y0 <= sy <= y1,
            (y1 - 1) * stride + src_w * 4 <= src@.len(),
            slen == src@.len(),
            cell_bound(src_w as int, dw as int) * (y1 - y0) * 255 <= u32::MAX,
            sw == src_w,
            st == stride,
            sv == src@,
            forall|j: int|
                0 <= j < dw ==> #[trigger] out@[j] == as_u32s(
                    col_sums(sv, st, sw, dw as int, j, y0 as int, sy as int),
                ),
        decreases y1 - sy,
    {
        assert(sy * stride <= (y1 - 1) * stride) by (nonlinear_arith)
            requires
                sy <= y1 - 1,
        ;
        let base = sy * stride;
        let mut x: usize = 0;
        let mut k: usize = 0;
        while k < dw
            invariant
                dw == out@.len() == counts@.len(),
                0 < dw <= src_w,
                counts@ == spec_counts(src_w as int, dw as int),
                y0 <= sy < y1,
                base == sy * stride,
                base + src_w * 4 <= src@.len(),
                slen == src@.len(),
                cell_bound(src_w as int, dw as int) * (y1 - y0) * 255 <= u32::MAX,
                k <= dw,
                sw == src_w,
                st == stride,
                sv == src@,
                x == cell_lo(k as int, sw, dw as int),
                forall|j: int|
                    0 <= j < k ==> #[trigger] out@[j] == as_u32s(
                        col_sums(sv, st, sw, dw as int, j, y0 as int, sy + 1),
                    ),
                forall|j: int|
                    k <= j < dw ==> #[trigger] out@[j] == as_u32s(
                        col_sums(sv, st, sw, dw as int, j, y0 as int, sy as int),
                    ),
            decreases dw - k,
        {
            let ghost x0 = cell_lo(k as int, sw, dw as int);
            let ghost x1 = cell_lo(k + 1, sw, dw as int);
            proof {
                lemma_cell_width(k as int, sw, dw as int);
                assert(x1 <= sw) by {
                    assert((k + 1) * sw <= dw * sw) by (nonlinear_arith)
                        requires
                            k + 1 <= dw,
                            sw >= 0,
                    ;
                    assert(dw * sw / (dw as int) == sw) by (nonlinear_arith)
                        requires
                            dw > 0,
                    ;
                    assert((k + 1) * sw / (dw as int) <= dw * sw / (dw as int)) by (nonlinear_arith)
                        requires
                            (k + 1) * sw <= dw * sw,
                            dw > 0,
                    ;
                }
                assert(cell_bound(sw, dw as int) <= u32::MAX) by (nonlinear_arith)
                    requires
                        cell_bound(sw, dw as int) * (y1 - y0) * 255 <= u32::MAX,
                        y1 - y0 >= 1,
                        cell_bound(sw, dw as int) >= 1,
                ;
                assert(counts@[k as int] == (x1 - x0) as u32);
            }
            let cnt = counts[k] as usize;
            assert(cnt == x1 - x0);
            let ghost prev = col_sums(sv, st, sw, dw as int, k as int, y0 as int, sy as int);
            proof {
                lemma_box_sum_bounds(sv, st, 0, x0, x1, y0 as int, sy as int);
                lemma_box_sum_bounds(sv, st, 1, x0, x1, y0 as int, sy as int);
                lemma_box_sum_bounds(sv, st, 2, x0, x1, y0 as int, sy as int);
                assert(255 * (x1 - x0) * (sy - y0) + 255 * (x1 - x0) <= u32::MAX) by (nonlinear_arith)
                    requires
                        x1 - x0 <= cell_bound(sw, dw as int),
                        x1 - x0 >= 1,
                        sy + 1 <= y1,
                        y0 <= sy,
                        cell_bound(sw, dw as int) * (y1 - y0) * 255 <= u32::MAX,
                ;
            }
            let (mut r, mut g, mut b) = out[k];
            let mut j: usize = 0;
            while j < cnt
                invariant
                    base + src_w * 4 <= src@.len(),
                    slen == src@.len(),
                    base == sy * stride,
                    cnt == x1 - x0,
                    x1 <= sw,
                    sw == src_w,
                    j <= cnt,
                    x == x0 + j,
                    r == prev.0 + row_sum(sv, st, 0, sy as int, x0, x0 + j),
                    g == prev.1 + row_sum(sv, st, 1, sy as int, x0, x0 + j),
                    b == prev.2 + row_sum(sv, st, 2, sy as int, x0, x0 + j),
                    0 <= prev.0 <= 255 * (x1 - x0) * (sy - y0),
                    0 <= prev.1 <= 255 * (x1 - x0) * (sy - y0),
                    0 <= prev.2 <= 255 * (x1 - x0) * (sy - y0),
                    255 * (x1 - x0) * (sy - y0) + 255 * (x1 - x0) <= u32::MAX,
                    sv == src@,
                    st == stride,
                decreases cnt - j,
            {
                proof {
                    lemma_row_sum_bounds(sv, st, 0, sy as int, x0, x0 + j);
                    lemma_row_sum_bounds(sv, st, 1, sy as int, x0, x0 + j);
                    lemma_row_sum_bounds(sv, st, 2, sy as int, x0, x0 + j);
                    assert(255 * j <= 255 * (x1 - x0) - 255);
                }
                let off = base + x * 4;
                r = r + src[off + 2] as u32;
                g = g + src[off + 1] as u32;
                b = b + src[off] as u32;
                x = x + 1;
                j = j + 1;
            }
            out[k] = (r, g, b);
            proof {
                assert(col_sums(sv, st, sw, dw as int, k as int, y0 as int, sy + 1) == (
                    prev.0 + row_sum(sv, st, 0, sy as int, x0, x1),
                    prev.1 + row_sum(sv, st, 1, sy as int, x0, x1),
                    prev.2 + row_sum(sv, st, 2, sy as int, x0, x1),
                ));
            }
            k = k + 1;
        }
        sy = sy + 1;
    }
    assert(y1 - y0 <= u32::MAX) by (nonlinear_arith)
        requires
            cell_bound(src_w as int, dw as int) * (y1 - y0) * 255 <= u32::MAX,
            cell_bound(src_w as int, dw as int) >= 1,
            y1 - y0 >= 1,
    ;
    let rows = (y1 - y0) as u32;
    let mut k: usize = 0;
    while k < dw
        invariant
            dw == out@.len() == counts@.len(),
            0 < dw <= src_w,
            counts@ == spec_counts(src_w as int, dw as int),
            rows == y1 - y0,
            y0 < y1,
            sw == src_w,
            st == stride,
            sv == src@,
            cell_bound(src_w as int, dw as int) * (y1 - y0) * 255 <= u32::MAX,
            k <= dw,
            forall|j: int|
                0 <= j < k ==> {
                    let x0 = cell_lo(j, src_w as int, dw as int);
                    let x1 = cell_lo(j + 1, src_w as int, dw as int);
                    let area = (x1 - x0) * (y1 - y0);
                    #[trigger] out@[j] == (
                        (box_sum(sv, st, 0, x0, x1, y0 as int, y1 as int) / area) as u32,
                        (box_sum(sv, st, 1, x0, x1, y0 as int, y1 as int) / area) as u32,
                        (box_sum(sv, st, 2, x0, x1, y0 as int, y1 as int) / area) as u32,
                    )
                },
            forall|j: int|
                k <= j < dw ==> #[trigger] out@[j] == as_u32s(
                    col_sums(sv, st, sw, dw as int, j, y0 as int, y1 as int),
                ),
        decreases dw - k,
    {
        let ghost x0 = cell_lo(k as int, sw, dw as int);
        let ghost x1 = cell_lo(k + 1, sw, dw as int);
        proof {
            lemma_cell_width(k as int, sw, dw as int);
            assert(counts@[k as int] == (x1 - x0) as u32);
            assert((x1 - x0) * (y1 - y0) * 255 <= u32::MAX) by (nonlinear_arith)
                requires
                    x1 - x0 <= cell_bound(sw, dw as int),
                    x1 - x0 >= 1,
                    y1 - y0 >= 1,
                    cell_bound(sw, dw as int) * (y1 - y0) * 255 <= u32::MAX,
            ;
            lemma_box_sum_bounds(sv, st, 0, x0, x1, y0 as int, y1 as int);
            lemma_box_sum_bounds(sv, st, 1, x0, x1, y0 as int, y1 as int);
            lemma_box_sum_bounds(sv, st, 2, x0, x1, y0 as int, y1 as int);
            assert(255 * (x1 - x0) * (y1 - y0) == (x1 - x0) * (y1 - y0) * 255) by (nonlinear_arith);
            assert(1 <= (x1 - x0) * (y1 - y0)) by (nonlinear_arith)
                requires
                    x1 - x0 >= 1,
                    y1 - y0 >= 1,
            ;
            assert(x1 - x0 <= u32::MAX && (y1 - y0) * (x1 - x0) <= u32::MAX) by (nonlinear_arith)
                requires
                    (x1 - x0) * (y1 - y0) * 255 <= u32::MAX,
                    x1 - x0 >= 1,
                    y1 - y0 >= 1,
            ;
        }
        let d = rows * counts[k];
        assert(d == (x1 - x0) * (y1 - y0)) by (nonlinear_arith)
            requires
                d == rows * ((x1 - x0) as u32),
                rows == y1 - y0,
                (x1 - x0) as u32 == x1 - x0,
        ;
        let (r, g, b) = out[k];
        out[k] = (r / d, g / d, b / d);
        k = k + 1;
    }
}

/// The three channel averages of output pixel (`ox`, `oy`).
pub open spec fn scaled_pixel(src: Seq<u8>, stride: int, sw: int, sh: int, w: int, h: int, ox: int, oy: int) -> (int, int, int) {
    (
        box_avg(src, stride, sw, sh, w, h, ox, oy, 0),
        box_avg(src, stride, sw, sh, w, h, ox, oy, 1),
        box_avg(src, stride, sw, sh, w, h, ox, oy, 2),
    )
}

/// Luma byte `i` of the converted frame (row `i / w`, column `i % w`).
pub open spec fn luma_at(src: Seq<u8>, stride: int, sw: int, sh: int, w: int, h: int, i: int) -> int {
    let p = scaled_pixel(src, stride, sw, sh, w, h, i % w, i / w);
    luma(p.0, p.1, p.2)
}

/// The colour a chroma sample (`cx`, `cy`) is computed from: the average of
/// the 2 x 2 output pixels it covers, rounded down.
pub open spec fn chroma_rgb(src: Seq<u8>, stride: int, sw: int, sh: int, w: int, h: int, cx: int, cy: int) -> (int, int, int) {
    let a = scaled_pixel(src, stride, sw, sh, w, h, 2 * cx, 2 * cy);
    let b = scaled_pixel(src, stride, sw, sh, w, h, 2 * cx + 1, 2 * cy);
    let c = scaled_pixel(src, stride, sw, sh, w, h, 2 * cx, 2 * cy + 1);
    let d = scaled_pixel(src, stride, sw, sh, w, h, 2 * cx + 1, 2 * cy + 1);
    ((a.0 + b.0 + c.0 + d.0) / 4, (a.1 + b.1 + c.1 + d.1) / 4, (a.2 + b.2 + c.2 + d.2) / 4)
}

/// Byte `i` of the blue-difference plane of the converted frame.
pub open spec fn chroma_u_at(src: Seq<u8>, stride: int, sw: int, sh: int, w: int, h: int, i: int) -> int {
    let c = chroma_rgb(src, stride, sw, sh, w, h, i % (w / 2), i / (w / 2));
    chroma_u(c.0, c.1, c.2)
}

/// Byte `i` of the red-difference plane of the converted frame.
pub open spec fn chroma_v_at(src: Seq<u8>, stride: int, sw: int, sh: int, w: int, h: int, i: int) -> int {
    let c = chroma_rgb(src, stride, sw, sh, w, h, i % (w / 2), i / (w / 2));
    chroma_v(c.0, c.1, c.2)
}

/// A conversion to `w` x `h` is carried out: the size is non-empty and no
/// larger than the source.
pub open spec fn conversion_applies(sw: int, sh: int, w: int, h: int) -> bool {
    0 < w <= sw && 0 < h <= sh
}

/// The source holds every row the conversion reads, and the sizes stay
/// within the machine's integers.
pub open spec fn conversion_fits(src_len: int, stride: int, sw: int, sh: int, w: int, h: int) -> bool {
    &&& (sh - 1) * stride + sw * 4 <= src_len
    &&& w * h <= usize::MAX
    &&& w * sw <= usize::MAX
    &&& h * sh <= usize::MAX
    &&& cell_bound(sw, w) * cell_bound(sh, h) * 255 <= u32::MAX
}

spec fn px_ok(t: (u32, u32, u32)) -> bool {
    t.0 <= 255 && t.1 <= 255 && t.2 <= 255
}

spec fn px_is(t: (u32, u32, u32), p: (int, int, int)) -> bool {
    t.0 == p.0 && t.1 == p.1 && t.2 == p.2
}

pub(crate) proof fn lemma_box_avg_bounds(src: Seq<u8>, stride: int, sw: int, sh: int, w: int, h: int, ox: int, oy: int, c: int)
    requires
        0 <= ox < w <= sw,
        0 <= oy < h <= sh,
    ensures
        0 <= box_avg(src, stride, sw, sh, w, h, ox, oy, c) <= 255,
{
    lemma_cell_width(ox, sw, w);
    lemma_cell_width(oy, sh, h);
    let x0 = cell_lo(ox, sw, w);
    let x1 = cell_lo(ox + 1, sw, w);
    let y0 = cell_lo(oy, sh, h);
    let y1 = cell_lo(oy + 1, sh, h);
    lemma_box_sum_bounds(src, stride, c, x0, x1, y0, y1);
    let s = box_sum(src, stride, c, x0, x1, y0, y1);
    let a = (x1 - x0) * (y1 - y0);
    assert(0 <= s / a <= 255) by (nonlinear_arith)
        requires
            0 <= s <= 255 * (x1 - x0) * (y1 - y0),
            a == (x1 - x0) * (y1 - y0),
            x1 - x0 >= 1,
            y1 - y0 >= 1,
    ;
}

proof fn lemma_unscaled_pixel(src: Seq<u8>, stride: int, sw: int, sh: int, ox: int, oy: int, c: int)
    requires
        0 <= ox < sw,
        0 <= oy < sh,
    ensures
        box_avg(src, stride, sw, sh, sw, sh, ox, oy, c) == chan(src, stride, ox, oy, c),
{
    assert(ox * sw / sw == ox && (ox + 1) * sw / sw == ox + 1) by (nonlinear_arith)
        requires
            sw > 0,
    ;
    assert(oy * sh / sh == oy && (oy + 1) * sh / sh == oy + 1) by (nonlinear_arith)
        requires
            sh > 0,
    ;
    assert(cell_lo(ox, sw, sw) == ox && cell_lo(ox + 1, sw, sw) == ox + 1);
    assert(cell_lo(oy, sh, sh) == oy && cell_lo(oy + 1, sh, sh) == oy + 1);
    assert(row_sum(src, stride, c, oy, ox, ox) == 0);
    assert(row_sum(src, stride, c, oy, ox, ox + 1) == chan(src, stride, ox, oy, c));
    assert(box_sum(src, stride, c, ox, ox + 1, oy, oy) == 0);
    assert(box_sum(src, stride, c, ox, ox + 1, oy, oy + 1) == chan(src, stride, ox, oy, c));
    let x0 = cell_lo(ox, sw, sw);
    let x1 = cell_lo(ox + 1, sw, sw);
    let y0 = cell_lo(oy, sh, sh);
    let y1 = cell_lo(oy + 1, sh, sh);
    assert((x1 - x0) * (y1 - y0) == 1) by (nonlinear_arith)
        requires
            x1 - x0 == 1,
            y1 - y0 == 1,
    ;
}

proof fn lemma_chroma_from_rows(
    src: Seq<u8>,
    stride: int,
    sw: int,
    sh: int,
    w: int,
    h: int,
    cx: int,
    cy: int,
    acc: (u32, u32, u32),
    a: (u32, u32, u32),
    b: (u32, u32, u32),
)
    requires
        0 <= cx,
        2 * cx + 1 < w <= sw,
        0 <= cy,
        2 * cy + 1 < h <= sh,
        ({
            let p = scaled_pixel(src, stride, sw, sh, w, h, 2 * cx, 2 * cy);
            let q = scaled_pixel(src, stride, sw, sh, w, h, 2 * cx + 1, 2 * cy);
            acc == ((p.0 + q.0) as u32, (p.1 + q.1) as u32, (p.2 + q.2) as u32)
        }),
        px_is(a, scaled_pixel(src, stride, sw, sh, w, h, 2 * cx, 2 * cy + 1)),
        px_is(b, scaled_pixel(src, stride, sw, sh, w, h, 2 * cx + 1, 2 * cy + 1)),
    ensures
        chroma_rgb(src, stride, sw, sh, w, h, cx, cy) == (
            (acc.0 + a.0 + b.0) / 4,
            (acc.1 + a.1 + b.1) / 4,
            (acc.2 + a.2 + b.2) / 4,
        ),
{
    lemma_box_avg_bounds(src, stride, sw, sh, w, h, 2 * cx, 2 * cy, 0);
    lemma_box_avg_bounds(src, stride, sw, sh, w, h, 2 * cx, 2 * cy, 1);
    lemma_box_avg_bounds(src, stride, sw, sh, w, h, 2 * cx, 2 * cy, 2);
    lemma_box_avg_bounds(src, stride, sw, sh, w, h, 2 * cx + 1, 2 * cy, 0);
    lemma_box_avg_bounds(src, stride, sw, sh, w, h, 2 * cx + 1, 2 * cy, 1);
    lemma_box_avg_bounds(src, stride, sw, sh, w, h, 2 * cx + 1, 2 * cy, 2);
}

proof fn lemma_chroma_rows(
    sv: Seq<u8>,
    st: int,
    sw: int,
    sh: int,
    w: int,
    h: int,
    cy: int,
    u0: Seq<u8>,
    v0: Seq<u8>,
    u1: Seq<u8>,
    v1: Seq<u8>,
    crow: Seq<(u32, u32, u32)>,
    row: Seq<(u32, u32, u32)>,
)
    requires
        0 < w <= sw,
        0 < h <= sh,
        0 <= cy,
        2 * cy + 1 < h,
        row.len() == w,
        crow.len() == w / 2,
        forall|i: int| 0 <= i < cy * (w / 2) ==> #[trigger] u0[i] as int == chroma_u_at(sv, st, sw, sh, w, h, i),
        forall|i: int| 0 <= i < cy * (w / 2) ==> #[trigger] v0[i] as int == chroma_v_at(sv, st, sw, sh, w, h, i),
        forall|i: int| 0 <= i < cy * (w / 2) ==> #[trigger] u1[i] == u0[i],
        forall|i: int| 0 <= i < cy * (w / 2) ==> #[trigger] v1[i] == v0[i],
        forall|i: int|
            cy * (w / 2) <= i < (cy + 1) * (w / 2) ==> {
                let c = i - cy * (w / 2);
                let acc = crow[c];
                let a = row[2 * c];
                let b = row[2 * c + 1];
                let r = (acc.0 + a.0 + b.0) / 4;
                let g = (acc.1 + a.1 + b.1) / 4;
                let bl = (acc.2 + a.2 + b.2) / 4;
                &&& #[trigger] u1[i] as int == chroma_u(r, g, bl)
                &&& v1[i] as int == chroma_v(r, g, bl)
            },
        forall|c: int|
            0 <= c < w / 2 ==> {
                let p = scaled_pixel(sv, st, sw, sh, w, h, 2 * c, 2 * cy);
                let q = scaled_pixel(sv, st, sw, sh, w, h, 2 * c + 1, 2 * cy);
                #[trigger] crow[c] == ((p.0 + q.0) as u32, (p.1 + q.1) as u32, (p.2 + q.2) as u32)
            },
        forall|k: int| 0 <= k < w ==> px_is(#[trigger] row[k], scaled_pixel(sv, st, sw, sh, w, h, k, 2 * cy + 1)),
    ensures
        forall|i: int|
            #![trigger u1[i]]
            #![trigger v1[i]]
            0 <= i < (cy + 1) * (w / 2) ==> u1[i] as int == chroma_u_at(sv, st, sw, sh, w, h, i) && v1[i] as int
                == chroma_v_at(sv, st, sw, sh, w, h, i),
{
    let uw = w / 2;
    assert(cy * uw + uw == (cy + 1) * uw) by (nonlinear_arith);
    assert forall|i: int|
        #![trigger u1[i]]
        #![trigger v1[i]]
        0 <= i < (cy + 1) * uw implies u1[i] as int == chroma_u_at(sv, st, sw, sh, w, h, i) && v1[i] as int
            == chroma_v_at(sv, st, sw, sh, w, h, i) by {
        if i >= cy * uw {
            let c = i - cy * uw;
            vstd::arithmetic::div_mod::lemma_fundamental_div_mod_converse(i, uw, cy, c);
            assert(u1[i] as int == chroma_u((crow[c].0 + row[2 * c].0 + row[2 * c + 1].0) / 4, (crow[c].1 + row[2 * c].1
                + row[2 * c + 1].1) / 4, (crow[c].2 + row[2 * c].2 + row[2 * c + 1].2) / 4));
            lemma_chroma_from_rows(sv, st, sw, sh, w, h, c, cy, crow[c], row[2 * c], row[2 * c + 1]);
        } else {
            assert(u1[i] == u0[i]);
            assert(v1[i] == v0[i]);
        }
    }
}

impl I420 {
    /// Writes luma row `oy` from the averaged row.
    fn luma_row(&mut self, oy: usize)
        requires
            old(self).wf(),
            oy < old(self).height,
            forall|k: int| 0 <= k < old(self).width ==> px_ok(#[trigger] old(self).row@[k]),
        ensures
            final(self).wf(),
            final(self).width == old(self).width,
            final(self).height == old(self).height,
            final(self).u == old(self).u,
            final(self).v == old(self).v,
            final(self).row == old(self).row,
            final(self).crow == old(self).crow,
            final(self).counts == old(self).counts,
            final(self).counts_for == old(self).counts_for,
            forall|i: int|
                0 <= i < oy * old(self).width || (oy + 1) * old(self).width <= i < final(self).y@.len()
                    ==> #[trigger] final(self).y@[i] == old(self).y@[i],
            forall|i: int|
                oy * old(self).width <= i < (oy + 1) * old(self).width ==> {
                    let t = old(self).row@[i - oy * old(self).width];
                    #[trigger] final(self).y@[i] as int == luma(t.0 as int, t.1 as int, t.2 as int)
                },
    {
        let w = self.width;
        let ghost h = self.height;
        let ghost old_self = *self;
        let ghost old_y = self.y@;
        let n = self.y.len();
        assert((oy + 1) * w <= w * h) by (nonlinear_arith)
            requires
                oy < h,
        ;
        assert(oy * w + w == (oy + 1) * w) by (nonlinear_arith);
        let base = oy * w;
        let mut k: usize = 0;
        while k < w
            invariant
                w == self.width,
                self.width == old_self.width,
                self.height == old_self.height,
                self.u == old_self.u,
                self.v == old_self.v,
                self.row == old_self.row,
                self.crow == old_self.crow,
                self.counts == old_self.counts,
                self.counts_for == old_self.counts_for,
                old_self.wf(),
                self.y@.len() == w * h,
                n == w * h,
                base == oy * w,
                base + w <= w * h,
                k <= w,
                forall|j: int| 0 <= j < w ==> px_ok(#[trigger] self.row@[j]),
                forall|i: int|
                    0 <= i < base || base + k <= i < self.y@.len() ==> #[trigger] self.y@[i] == old_y[i],
                forall|i: int|
                    base <= i < base + k ==> {
                        let t = self.row@[i - base];
                        #[trigger] self.y@[i] as int == luma(t.0 as int, t.1 as int, t.2 as int)
                    },
            decreases w - k,
        {
            let (r, g, b) = self.row[k];
            assert(px_ok(self.row@[k as int]));
            let l = rgb_to_y(r, g, b);
            self.y.set(base + k, l);
            k = k + 1;
        }
    }

    /// Stores the pairwise channel sums of the averaged row (an even row).
    fn chroma_pairs(&mut self)
        requires
            old(self).wf(),
            forall|k: int| 0 <= k < old(self).width ==> px_ok(#[trigger] old(self).row@[k]),
        ensures
            final(self).wf(),
            final(self).width == old(self).width,
            final(self).height == old(self).height,
            final(self).y == old(self).y,
            final(self).u == old(self).u,
            final(self).v == old(self).v,
            final(self).row == old(self).row,
            final(self).counts == old(self).counts,
            final(self).counts_for == old(self).counts_for,
            forall|c: int|
                0 <= c < old(self).width / 2 ==> {
                    let a = old(self).row@[2 * c];
                    let b = old(self).row@[2 * c + 1];
                    #[trigger] final(self).crow@[c] == ((a.0 + b.0) as u32, (a.1 + b.1) as u32, (a.2 + b.2) as u32)
                },
    {
        let uw = self.width / 2;
        let ghost old_self = *self;
        let mut c: usize = 0;
        while c < uw
            invariant
                uw == self.width / 2,
                self.width == old_self.width,
                self.height == old_self.height,
                self.y == old_self.y,
                self.u == old_self.u,
                self.v == old_self.v,
                self.row == old_self.row,
                self.counts == old_self.counts,
                self.counts_for == old_self.counts_for,
                old_self.wf(),
                self.crow@.len() == uw,
                self.row@.len() == self.width,
                c <= uw,
                forall|j: int| 0 <= j < self.width ==> px_ok(#[trigger] self.row@[j]),
                forall|j: int|
                    0 <= j < c ==> {
                        let a = self.row@[2 * j];
                        let b = self.row@[2 * j + 1];
                        #[trigger] self.crow@[j] == ((a.0 + b.0) as u32, (a.1 + b.1) as u32, (a.2 + b.2) as u32)
                    },
            decreases uw - c,
        {
            let (r0, g0, b0) = self.row[2 * c];
            let (r1, g1, b1) = self.row[2 * c + 1];
            assert(px_ok(self.row@[2 * c as int]) && px_ok(self.row@[2 * c + 1]));
            self.crow.set(c, (r0 + r1, g0 + g1, b0 + b1));
            c = c + 1;
        }
    }

    /// Writes chroma row `cy` from the stored pair sums of the row above and
    /// the averaged row (an odd row).
    fn chroma_row(&mut self, cy: usize)
        requires
            old(self).wf(),
            cy < old(self).height / 2,
            forall|k: int| 0 <= k < old(self).width ==> px_ok(#[trigger] old(self).row@[k]),
            forall|c: int|
                0 <= c < old(self).width / 2 ==> {
                    let t = #[trigger] old(self).crow@[c];
                    t.0 <= 510 && t.1 <= 510 && t.2 <= 510
                },
        ensures
            final(self).wf(),
            final(self).width == old(self).width,
            final(self).height == old(self).height,
            final(self).y == old(self).y,
            final(self).row == old(self).row,
            final(self).crow == old(self).crow,
            final(self).counts == old(self).counts,
            final(self).counts_for == old(self).counts_for,
            forall|i: int|
                0 <= i < cy * (old(self).width / 2) || (cy + 1) * (old(self).width / 2) <= i < final(self).u@.len()
                    ==> #[trigger] final(self).u@[i] == old(self).u@[i],
            forall|i: int|
                0 <= i < cy * (old(self).width / 2) || (cy + 1) * (old(self).width / 2) <= i < final(self).v@.len()
                    ==> #[trigger] final(self).v@[i] == old(self).v@[i],
            forall|i: int|
                cy * (old(self).width / 2) <= i < (cy + 1) * (old(self).width / 2) ==> {
                    let c = i - cy * (old(self).width / 2);
                    let acc = old(self).crow@[c];
                    let a = old(self).row@[2 * c];
                    let b = old(self).row@[2 * c + 1];
                    let r = (acc.0 + a.0 + b.0) / 4;
                    let g = (acc.1 + a.1 + b.1) / 4;
                    let bl = (acc.2 + a.2 + b.2) / 4;
                    &&& #[trigger] final(self).u@[i] as int == chroma_u(r, g, bl)
                    &&& final(self).v@[i] as int == chroma_v(r, g, bl)
                },
    {
        let uw = self.width / 2;
        let ghost uh = self.height / 2;
        let ghost old_u = self.u@;
        let ghost old_v = self.v@;
        let ghost crow = self.crow@;
        let ghost row = self.row@;
        let ghost old_self = *self;
        let n = self.u.len();
        assert((cy + 1) * uw <= uw * uh) by (nonlinear_arith)
            requires
                cy < uh,
        ;
        assert(cy * uw + uw == (cy + 1) * uw) by (nonlinear_arith);
        let base = cy * uw;
        let mut c: usize = 0;
        while c < uw
            invariant
                uw == self.width / 2,
                self.width == old_self.width,
                self.height == old_self.height,
                self.y == old_self.y,
                self.row == old_self.row,
                self.crow == old_self.crow,
                self.counts == old_self.counts,
                self.counts_for == old_self.counts_for,
                old_self.wf(),
                self.u@.len() == uw * uh,
                self.v@.len() == uw * uh,
                n == uw * uh,
                self.crow@ == crow,
                self.row@ == row,
                crow.len() == uw,
                row.len() == self.width,
                base == cy * uw,
                base + uw <= uw * uh,
                c <= uw,
                forall|j: int| 0 <= j < self.width ==> px_ok(#[trigger] row[j]),
                forall|j: int|
                    0 <= j < uw ==> {
                        let t = #[trigger] crow[j];
                        t.0 <= 510 && t.1 <= 510 && t.2 <= 510
                    },
                forall|i: int|
                    0 <= i < base || base + c <= i < self.u@.len() ==> #[trigger] self.u@[i] == old_u[i],
                forall|i: int|
                    0 <= i < base || base + c <= i < self.v@.len() ==> #[trigger] self.v@[i] == old_v[i],
                forall|i: int|
                    base <= i < base + c ==> {
                        let j = i - base;
                        let acc = crow[j];
                        let a = row[2 * j];
                        let b = row[2 * j + 1];
                        let r = (acc.0 + a.0 + b.0) / 4;
                        let g = (acc.1 + a.1 + b.1) / 4;
                        let bl = (acc.2 + a.2 + b.2) / 4;
                        &&& #[trigger] self.u@[i] as int == chroma_u(r, g, bl)
                        &&& self.v@[i] as int == chroma_v(r, g, bl)
                    },
            decreases uw - c,
        {
            let (ar, ag, ab) = self.crow[c];
            let (r0, g0, b0) = self.row[2 * c];
            let (r1, g1, b1) = self.row[2 * c + 1];
            assert(px_ok(row[2 * c as int]) && px_ok(row[2 * c + 1]));
            assert(crow[c as int].0 <= 510);
            let r = (ar + r0 + r1) / 4;
            let g = (ag + g0 + g1) / 4;
            let b = (ab + b0 + b1) / 4;
            let uu = rgb_to_u(r, g, b);
            let vv = rgb_to_v(r, g, b);
            self.u.set(base + c, uu);
            self.v.set(base + c, vv);
            c = c + 1;
        }
    }
}

/// `out` holds the conversion of the `sw` x `sh` source to `w` x `h`: its
/// size, and every sample of its three planes.
pub open spec fn holds_conversion(out: I420, src: Seq<u8>, stride: int, sw: int, sh: int, w: int, h: int) -> bool {
    &&& out.spec_width() == w
    &&& out.spec_height() == h
    &&& out.plane_y().len() == w * h
    &&& out.plane_u().len() == (w / 2) * (h / 2)
    &&& out.plane_v().len() == (w / 2) * (h / 2)
    &&& forall|i: int|
        0 <= i < w * h ==> #[trigger] out.plane_y()[i] as int == luma_at(src, stride, sw, sh, w, h, i)
    &&& forall|i: int|
        0 <= i < (w / 2) * (h / 2) ==> #[trigger] out.plane_u()[i] as int == chroma_u_at(src, stride, sw, sh, w, h, i)
    &&& forall|i: int|
        0 <= i < (w / 2) * (h / 2) ==> #[trigger] out.plane_v()[i] as int == chroma_v_at(src, stride, sw, sh, w, h, i)
}

/// Converts a BGRA screen frame to I420 and, in the same pass, scales it down
/// to `dst` (each side rounded down to an even number) by box filtering;
/// the target size need not divide the source size. `stride` is the source's
/// row step in bytes and may include padding. When the rounded size is empty
/// or larger than the source, `out` is left as it was.
#[verifier::spinoff_prover]
pub fn bgra_to_i420(src: &[u8], stride: usize, src_w: usize, src_h: usize, dst: (usize, usize), out: &mut I420)
    requires
        old(out).wf(),
        conversion_applies(src_w as int, src_h as int, even_down(dst.0 as int), even_down(dst.1 as int))
            ==> conversion_fits(
            src@.len() as int,
            stride as int,
            src_w as int,
            src_h as int,
            even_down(dst.0 as int),
            even_down(dst.1 as int),
        ),
    ensures
        final(out).wf(),
        ({
            let w = even_down(dst.0 as int);
            let h = even_down(dst.1 as int);
            if conversion_applies(src_w as int, src_h as int, w, h) {
                holds_conversion(*final(out), src@, stride as int, src_w as int, src_h as int, w, h)
            } else {
                *final(out) == *old(out)
            }
        }),
{
    let w = dst.0 - dst.0 % 2;
    let h = dst.1 - dst.1 % 2;
    if w == 0 || h == 0 || w > src_w || h > src_h {
        return;
    }
    out.resize(w, h);
    out.ensure_counts(src_w);
    let uw = w / 2;
    let scaled = w != src_w || h != src_h;
    let ghost sv = src@;
    let ghost st = stride as int;
    let ghost sw = src_w as int;
    let ghost sh = src_h as int;
    let mut oy: usize = 0;
    assert(oy * w == 0 && (oy / 2) * uw == 0) by (nonlinear_arith)
        requires
            oy == 0,
    ;
    while oy < h
        invariant
            out.wf(),
            out.width == w,
            out.height == h,
            out.counts_for == (src_w, w),
            uw == w / 2,
            h % 2 == 0,
            w % 2 == 0,
            0 < w <= src_w,
            0 < h <= src_h,
            scaled == (w != src_w || h != src_h),
            conversion_fits(src@.len() as int, stride as int, src_w as int, src_h as int, w as int, h as int),
            sv == src@,
            st == stride,
            sw == src_w,
            sh == src_h,
            oy <= h,
            forall|i: int| 0 <= i < oy * w ==> #[trigger] out.y@[i] as int == luma_at(sv, st, sw, sh, w as int, h as int, i),
            forall|i: int|
                0 <= i < (oy / 2) * uw ==> #[trigger] out.u@[i] as int == chroma_u_at(sv, st, sw, sh, w as int, h as int, i),
            forall|i: int|
                0 <= i < (oy / 2) * uw ==> #[trigger] out.v@[i] as int == chroma_v_at(sv, st, sw, sh, w as int, h as int, i),
            oy % 2 == 1 ==> forall|c: int|
                0 <= c < uw ==> {
                    let a = scaled_pixel(sv, st, sw, sh, w as int, h as int, 2 * c, oy - 1);
                    let b = scaled_pixel(sv, st, sw, sh, w as int, h as int, 2 * c + 1, oy - 1);
                    #[trigger] out.crow@[c] == ((a.0 + b.0) as u32, (a.1 + b.1) as u32, (a.2 + b.2) as u32)
                },
        decreases h - oy,
    {
        if scaled {
            proof {
                lemma_cell_width(oy as int, sh, h as int);
                assert((oy + 1) * src_h <= h * src_h) by (nonlinear_arith)
                    requires
                        oy < h,
                ;
            }
            assert(oy * src_h <= h * src_h) by (nonlinear_arith)
                requires
                    oy < h,
            ;
            let y0 = oy * src_h / h;
            let y1 = ((oy + 1) * src_h) / h;
            proof {
                assert(y1 <= src_h) by (nonlinear_arith)
                    requires
                        y1 == ((oy + 1) * src_h) / (h as int),
                        (oy + 1) * src_h <= h * src_h,
                        h > 0,
                ;
                assert((y1 - 1) * stride <= (src_h - 1) * stride) by (nonlinear_arith)
                    requires
                        y1 <= src_h,
                ;
                assert(cell_bound(sw, w as int) * (y1 - y0) * 255 <= u32::MAX) by (nonlinear_arith)
                    requires
                        cell_bound(sw, w as int) * cell_bound(sh, h as int) * 255 <= u32::MAX,
                        y1 - y0 <= cell_bound(sh, h as int),
                        cell_bound(sw, w as int) >= 0,
                ;
            }
            downsample_row(src, stride, src_w, y0, y1, &out.counts, &mut out.row);
        } else {
            assert(oy * stride + w * 4 <= src@.len()) by (nonlinear_arith)
                requires
                    oy <= src_h - 1,
                    w == src_w,
                    (src_h - 1) * stride + src_w * 4 <= src@.len(),
            ;
            copy_row(src, stride, oy, &mut out.row);
        }
        assert forall|k: int| 0 <= k < w implies px_is(
            #[trigger] out.row@[k],
            scaled_pixel(sv, st, sw, sh, w as int, h as int, k, oy as int),
        ) && px_ok(out.row@[k]) by {
            lemma_box_avg_bounds(sv, st, sw, sh, w as int, h as int, k, oy as int, 0);
            lemma_box_avg_bounds(sv, st, sw, sh, w as int, h as int, k, oy as int, 1);
            lemma_box_avg_bounds(sv, st, sw, sh, w as int, h as int, k, oy as int, 2);
            if !scaled {
                lemma_unscaled_pixel(sv, st, sw, sh, k, oy as int, 0);
                lemma_unscaled_pixel(sv, st, sw, sh, k, oy as int, 1);
                lemma_unscaled_pixel(sv, st, sw, sh, k, oy as int, 2);
            }
        }
        let ghost row = out.row@;
        let ghost crow0 = out.crow@;
        let ghost y_before = out.y@;
        out.luma_row(oy);
        proof {
            assert(oy * w + w == (oy + 1) * w) by (nonlinear_arith);
            assert forall|i: int| 0 <= i < (oy + 1) * w implies #[trigger] out.y@[i] as int == luma_at(
                sv,
                st,
                sw,
                sh,
                w as int,
                h as int,
                i,
            ) by {
                if i >= oy * w {
                    let k = i - oy * w;
                    vstd::arithmetic::div_mod::lemma_fundamental_div_mod_converse(i, w as int, oy as int, k);
                    assert(px_is(row[k], scaled_pixel(sv, st, sw, sh, w as int, h as int, k, oy as int)));
                } else {
                    assert(out.y@[i] == y_before[i]);
                }
            }
        }
        if oy % 2 == 0 {
            out.chroma_pairs();
        } else {
            let cy = oy / 2;
            proof {
                assert forall|c: int| 0 <= c < uw implies {
                    let t = #[trigger] out.crow@[c];
                    t.0 <= 510 && t.1 <= 510 && t.2 <= 510
                } by {
                    let a = scaled_pixel(sv, st, sw, sh, w as int, h as int, 2 * c, oy - 1);
                    let b = scaled_pixel(sv, st, sw, sh, w as int, h as int, 2 * c + 1, oy - 1);
                    lemma_box_avg_bounds(sv, st, sw, sh, w as int, h as int, 2 * c, oy - 1, 0);
                    lemma_box_avg_bounds(sv, st, sw, sh, w as int, h as int, 2 * c, oy - 1, 1);
                    lemma_box_avg_bounds(sv, st, sw, sh, w as int, h as int, 2 * c, oy - 1, 2);
                    lemma_box_avg_bounds(sv, st, sw, sh, w as int, h as int, 2 * c + 1, oy - 1, 0);
                    lemma_box_avg_bounds(sv, st, sw, sh, w as int, h as int, 2 * c + 1, oy - 1, 1);
                    lemma_box_avg_bounds(sv, st, sw, sh, w as int, h as int, 2 * c + 1, oy - 1, 2);
                }
            }
            let ghost u_before = out.u@;
            let ghost v_before = out.v@;
            let ghost crow1 = out.crow@;
            out.chroma_row(cy);
            proof {
                lemma_chroma_rows(sv, st, sw, sh, w as int, h as int, cy as int, u_before, v_before, out.u@, out.v@, crow1, row);
            }
        }
        oy = oy + 1;
    }
    proof {
        assert((h / 2) * uw == (w / 2) * (h / 2)) by (nonlinear_arith)
            requires
                uw == w / 2,
        ;
        assert(h * w == w * h) by (nonlinear_arith);
        assert(out.y@ == out.plane_y() && out.u@ == out.plane_u() && out.v@ == out.plane_v());
    }
}

/// `v / 256` rounded down (an arithmetic shift by 8), clamped to 0..=255.
pub open spec fn clamp_byte(v: int) -> int {
    let q = v / 256;
    if q < 0 {
        0
    } else if q > 255 {
        255
    } else {
        q
    }
}

fn clamp8(v: i32) -> (r: u8)
    ensures
        r as int == clamp_byte(v as int),
{
    if v < 0 {
        0
    } else if v >= 65536 {
        255
    } else {
        (v / 256) as u8
    }
}

/// The RGB colour of a limited-range BT.601 (`yy`, `uu`, `vv`) sample.
pub open spec fn yuv_to_rgb(yy: int, uu: int, vv: int) -> (int, int, int) {
    let c = 298 * (yy - 16);
    let d = uu - 128;
    let e = vv - 128;
    (clamp_byte(c + 409 * e + 128), clamp_byte(c - 100 * d - 208 * e + 128), clamp_byte(c + 516 * d + 128))
}

/// Pixel `i` (row `i / w`, column `i % w`) of a decoded `w`-wide frame with
/// plane strides `s` (Y, U, V): one chroma sample serves a 2 x 2 block.
pub open spec fn decoded_pixel(y: Seq<u8>, u: Seq<u8>, v: Seq<u8>, s: (usize, usize, usize), w: int, i: int) -> (int, int, int) {
    let r = i / w;
    let c = i % w;
    yuv_to_rgb(
        y[r * s.0 + c] as int,
        u[(r / 2) * s.1 + c / 2] as int,
        v[(r / 2) * s.2 + c / 2] as int,
    )
}

/// The planes hold every sample that a `w` x `h` frame reads.
pub open spec fn planes_cover(ylen: int, ulen: int, vlen: int, s: (usize, usize, usize), w: int, h: int) -> bool {
    h > 0 ==> {
        &&& (h - 1) * s.0 + w <= ylen
        &&& ((h - 1) / 2) * s.1 + w / 2 <= ulen
        &&& ((h - 1) / 2) * s.2 + w / 2 <= vlen
    }
}

/// Expands a decoded I420 frame into RGB pixels, row by row, replacing the
/// contents of `out`. The width must be even (4:2:0 frames are).
pub fn i420_to_pixels(
    y: &[u8],
    u: &[u8],
    v: &[u8],
    strides: (usize, usize, usize),
    w: usize,
    h: usize,
    out: &mut Vec<(u8, u8, u8)>,
)
    requires
        w % 2 == 0,
        w * h <= usize::MAX,
        planes_cover(y@.len() as int, u@.len() as int, v@.len() as int, strides, w as int, h as int),
    ensures
        final(out)@.len() == w * h,
        forall|i: int|
            0 <= i < w * h ==> {
                let p = decoded_pixel(y@, u@, v@, strides, w as int, i);
                let q = #[trigger] final(out)@[i];
                q.0 as int == p.0 && q.1 as int == p.1 && q.2 as int == p.2
            },
{
    out.clear();
    let half = w / 2;
    let yl = y.len();
    let ul = u.len();
    let vl = v.len();
    let mut r: usize = 0;
    while r < h
        invariant
            yl == y@.len(),
            ul == u@.len(),
            vl == v@.len(),
            w % 2 == 0,
            half == w / 2,
            w * h <= usize::MAX,
            planes_cover(y@.len() as int, u@.len() as int, v@.len() as int, strides, w as int, h as int),
            r <= h,
            out@.len() == r * w,
            forall|i: int|
                0 <= i < r * w ==> {
                    let p = decoded_pixel(y@, u@, v@, strides, w as int, i);
                    let q = #[trigger] out@[i];
                    q.0 as int == p.0 && q.1 as int == p.1 && q.2 as int == p.2
                },
        decreases h - r,
    {
        let cr = r / 2;
        proof {
            assert(r * strides.0 + w <= y@.len()) by (nonlinear_arith)
                requires
                    r <= h - 1,
                    (h - 1) * strides.0 + w <= y@.len(),
            ;
            assert(cr * strides.1 + half <= u@.len() && cr * strides.2 + half <= v@.len()) by (nonlinear_arith)
                requires
                    cr == r / 2,
                    r <= h - 1,
                    ((h - 1) / 2) * strides.1 + half <= u@.len(),
                    ((h - 1) / 2) * strides.2 + half <= v@.len(),
            ;
            assert((r + 1) * w <= w * h) by (nonlinear_arith)
                requires
                    r < h,
            ;
            assert(r * w + w == (r + 1) * w) by (nonlinear_arith);
        }
        let yb = r * strides.0;
        let ub = cr * strides.1;
        let vb = cr * strides.2;
        let mut c: usize = 0;
        while c < half
            invariant
                yl == y@.len(),
                ul == u@.len(),
                vl == v@.len(),
                w % 2 == 0,
                half == w / 2,
                r < h,
                cr == r / 2,
                yb == r * strides.0,
                ub == cr * strides.1,
                vb == cr * strides.2,
                yb + w <= y@.len(),
                ub + half <= u@.len(),
                vb + half <= v@.len(),
                (r + 1) * w <= w * h,
                r * w + w == (r + 1) * w,
                w * h <= usize::MAX,
                c <= half,
                out@.len() == r * w + 2 * c,
                forall|i: int|
                    0 <= i < r * w + 2 * c ==> {
                        let p = decoded_pixel(y@, u@, v@, strides, w as int, i);
                        let q = #[trigger] out@[i];
                        q.0 as int == p.0 && q.1 as int == p.1 && q.2 as int == p.2
                    },
            decreases half - c,
        {
            let uu = u[ub + c];
            let vv = v[vb + c];
            let d = uu as i32 - 128;
            let e = vv as i32 - 128;
            assert(-128 <= d <= 127 && -128 <= e <= 127);
            let dr = 409 * e + 128;
            let dg = 128 - 100 * d - 208 * e;
            let db = 516 * d + 128;
            let ghost before = out@;
            let ghost n0 = r * w + 2 * c;
            let y0 = y[yb + 2 * c] as i32;
            let c0 = 298 * (y0 - 16);
            out.push((clamp8(c0 + dr), clamp8(c0 + dg), clamp8(c0 + db)));
            let y1 = y[yb + 2 * c + 1] as i32;
            let c1 = 298 * (y1 - 16);
            out.push((clamp8(c1 + dr), clamp8(c1 + dg), clamp8(c1 + db)));
            proof {
                assert forall|i: int| 0 <= i < r * w + 2 * c + 2 implies {
                    let p = decoded_pixel(y@, u@, v@, strides, w as int, i);
                    let q = #[trigger] out@[i];
                    q.0 as int == p.0 && q.1 as int == p.1 && q.2 as int == p.2
                } by {
                    if i >= n0 {
                        let k = i - r * w;
                        vstd::arithmetic::div_mod::lemma_fundamental_div_mod_converse(i, w as int, r as int, k);
                        assert(k / 2 == c);
                    } else {
                        assert(out@[i] == before[i]);
                    }
                }
            }
            c = c + 1;
        }
        r = r + 1;
    }
    assert(h * w == w * h) by (nonlinear_arith);
}

/// Whether two byte vectors hold the same bytes.
fn bytes_eq(a: &Vec<u8>, b: &Vec<u8>) -> (r: bool)
    ensures
        r == (a@ == b@),
{
    if a.len() != b.len() {
        return false;
    }
    let mut i: usize = 0;
    while i < a.len()
        invariant
            a@.len() == b@.len(),
            i <= a@.len(),
            forall|j: int| 0 <= j < i ==> a@[j] == b@[j],
        decreases a@.len() - i,
    {
        if a[i] != b[i] {
            return false;
        }
        i = i + 1;
    }
    assert(a@ =~= b@);
    true
}

} // verus!
