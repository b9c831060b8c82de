//! H264 decoding for the viewer: an Annex-B access unit goes to openh264's
//! decoder and a decoded picture comes back as RGB pixels ready to draw. The
//! YUV to RGB step is the integer conversion of `convert`.

use vstd::prelude::*;

use openh264::decoder::Decoder;
use openh264::formats::YUVSource;

use crate::convert::{decoded_pixel, even_down, i420_to_pixels, planes_cover, yuv_to_rgb};

verus! {

#[verifier::external_type_specification]
#[verifier::external_body]
pub struct ExDecoder(Decoder);

/// A decoded picture's planes, copied out of the decoder: the luma and the
/// two chroma planes, their row strides, and the picture size.
#[derive(Debug)]
pub struct DecodedPlanes {
    pub y: Vec<u8>,
    pub u: Vec<u8>,
    pub v: Vec<u8>,
    pub strides: (usize, usize, usize),
    pub width: usize,
    pub height: usize,
}

/// A decoded picture ready to draw: RGB pixels row by row.
#[derive(Debug)]
pub struct ScreenFrame {
    pub width: usize,
    pub height: usize,
    pub pixels: Vec<(u8, u8, u8)>,
}

/// Calls `openh264::decoder::Decoder::new` (the decoder built from the
/// bundled source) and hands back the decoder or the error's text. Nothing
/// is claimed of the outcome.
#[verifier::external_body]
fn decoder_new() -> (r: Result<Decoder, String>) {
    match Decoder::new() {
        Ok(d) => Ok(d),
        Err(e) => Err(e.to_string()),
    }
}

/// Calls `openh264::decoder::Decoder::decode` on one access unit and copies
/// a decoded picture's planes, strides and size out of the decoder; `None`
/// when the decoder needs more data, the error's text when the bitstream is
/// refused. The outcome depends on what the decoder was fed before, so
/// nothing is claimed of it.
#[verifier::external_body]
fn decode_access_unit(dec: &mut Decoder, au: &[u8]) -> (r: Result<Option<DecodedPlanes>, String>) {
    match dec.decode(au) {
        Ok(Some(yuv)) => {
            let (width, height) = yuv.dimensions();
            let (y, u, v) = (yuv.y().to_vec(), yuv.u().to_vec(), yuv.v().to_vec());
            Ok(Some(DecodedPlanes { y, u, v, strides: yuv.strides(), width, height }))
        },
        Ok(None) => Ok(None),
        Err(e) => Err(e.to_string()),
    }
}

/// `a * b + c <= limit`, computed without overflow.
fn fits(a: usize, b: usize, c: usize, limit: usize) -> (r: bool)
    ensures
        r == (a * b + c <= limit),
{
    match a.checked_mul(b) {
        Some(p) => match p.checked_add(c) {
            Some(s) => s <= limit,
            None => false,
        },
        None => false,
    }
}

/// The decoded planes cover the (even) picture they describe.
pub open spec fn planes_fit(p: DecodedPlanes, w: int, h: int) -> bool {
    &&& w * h <= usize::MAX
    &&& planes_cover(p.y@.len() as int, p.u@.len() as int, p.v@.len() as int, p.strides, w, h)
}

/// The error for planes too short for the picture size they come with.
pub open spec fn short_planes_error() -> Seq<char> {
    "decode: eksik kare düzlemi"@
}

/// What `frame_from_planes` makes of decoded planes: no picture when the
/// (even) size is empty, the short-planes error when the planes do not cover
/// it, and otherwise the picture whose pixels are the planes' colours.
pub open spec fn frame_of(p: DecodedPlanes, r: Result<Option<ScreenFrame>, String>) -> bool {
    let w = even_down(p.width as int);
    let h = even_down(p.height as int);
    if w == 0 || h == 0 {
        r matches Ok(None)
    } else if !planes_fit(p, w, h) {
        r matches Err(m) && m@ == short_planes_error()
    } else {
        r matches Ok(Some(f)) && f.width == w && f.height == h && f.pixels@.len() == w * h
            && forall|i: int|
            0 <= i < w * h ==> {
                let q = decoded_pixel(p.y@, p.u@, p.v@, p.strides, w, i);
                let c = #[trigger] f.pixels@[i];
                c.0 as int == q.0 && c.1 as int == q.1 && c.2 as int == q.2
            }
    }
}

/// Every sample of a plane is `v`.
pub open spec fn uniform(plane: Seq<u8>, v: u8) -> bool {
    forall|j: int| 0 <= j < plane.len() ==> #[trigger] plane[j] == v
}

proof fn lemma_sample_indices(w: int, h: int, s: (usize, usize, usize), ylen: int, ulen: int, vlen: int, i: int)
    requires
        w > 0,
        h > 0,
        w % 2 == 0,
        planes_cover(ylen, ulen, vlen, s, w, h),
        0 <= i < w * h,
    ensures
        0 <= (i / w) * s.0 + i % w < ylen,
        0 <= ((i / w) / 2) * s.1 + (i % w) / 2 < ulen,
        0 <= ((i / w) / 2) * s.2 + (i % w) / 2 < vlen,
{
    let r = i / w;
    let c = i % w;
    assert(0 <= r < h && 0 <= c < w) by (nonlinear_arith)
        requires
            w > 0,
            0 <= i < w * h,
            r == i / w,
            c == i % w,
    ;
    assert(0 <= r * s.0 <= (h - 1) * s.0) by (nonlinear_arith)
        requires
            0 <= r <= h - 1,
    ;
    assert(0 <= (r / 2) * s.1 <= ((h - 1) / 2) * s.1 && 0 <= (r / 2) * s.2 <= ((h - 1) / 2) * s.2)
        by (nonlinear_arith)
        requires
            0 <= r <= h - 1,
    ;
    assert(c / 2 < w / 2) by (nonlinear_arith)
        requires
            0 <= c < w,
            w % 2 == 0,
    ;
}

/// A picture made from planes that each hold one value is one colour: every
/// pixel is the colour of that luma with that blue-difference (U) and
/// red-difference (V) value, in that order.
pub proof fn law_uniform_planes_give_one_colour(p: DecodedPlanes, r: Result<Option<ScreenFrame>, String>, yy: u8, uu: u8, vv: u8)
    requires
        frame_of(p, r),
        uniform(p.y@, yy),
        uniform(p.u@, uu),
        uniform(p.v@, vv),
    ensures
        r matches Ok(Some(f)) ==> forall|i: int|
            0 <= i < f.pixels@.len() ==> {
                let c = #[trigger] f.pixels@[i];
                (c.0 as int, c.1 as int, c.2 as int) == yuv_to_rgb(yy as int, uu as int, vv as int)
            },
{
    if let Ok(Some(f)) = r {
        let w = even_down(p.width as int);
        let h = even_down(p.height as int);
        assert forall|i: int| 0 <= i < f.pixels@.len() implies {
            let c = #[trigger] f.pixels@[i];
            (c.0 as int, c.1 as int, c.2 as int) == yuv_to_rgb(yy as int, uu as int, vv as int)
        } by {
            lemma_sample_indices(w, h, p.strides, p.y@.len() as int, p.u@.len() as int, p.v@.len() as int, i);
            let row = i / w;
            let col = i % w;
            assert(p.y@[row * p.strides.0 + col] == yy);
            assert(p.u@[(row / 2) * p.strides.1 + col / 2] == uu);
            assert(p.v@[(row / 2) * p.strides.2 + col / 2] == vv);
        }
    }
}

/// Turns decoded planes into a picture. An odd width or height loses its
/// last column or row (4:2:0 chroma pairs them); an empty picture gives
/// `None`; planes too short for their size give an error.
pub fn frame_from_planes(p: DecodedPlanes) -> (r: Result<Option<ScreenFrame>, String>)
    ensures
        frame_of(p, r),
{
    let w = p.width - p.width % 2;
    let h = p.height - p.height % 2;
    if w == 0 || h == 0 {
        return Ok(None);
    }
    let ok = fits(w, h, 0, usize::MAX) && fits(h - 1, p.strides.0, w, p.y.len()) && fits(
        (h - 1) / 2,
        p.strides.1,
        w / 2,
        p.u.len(),
    ) && fits((h - 1) / 2, p.strides.2, w / 2, p.v.len());
    if !ok {
        return Err(String::from_str("decode: eksik kare düzlemi"));
    }
    let mut pixels: Vec<(u8, u8, u8)> = Vec::new();
    i420_to_pixels(p.y.as_slice(), p.u.as_slice(), p.v.as_slice(), p.strides, w, h, &mut pixels);
    Ok(Some(ScreenFrame { width: w, height: h, pixels }))
}

/// An H264 decoder.
pub struct H264Decoder {
    inner: Decoder,
}

impl H264Decoder {
    /// Creates the decoder; on failure the error reads `decoder init: ...`.
    pub fn new() -> (r: Result<Self, String>)
        ensures
            r matches Err(m) ==> exists|e: Seq<char>| m@ == "decoder init: "@ + e,
    {
        match decoder_new() {
            Ok(inner) => Ok(H264Decoder { inner }),
            Err(e) => {
                let m = String::from_str("decoder init: ").concat(e.as_str());
                assert(m@ == "decoder init: "@ + e@);
                Err(m)
            },
        }
    }

    /// Decodes one Annex-B access unit. `None` when no picture is ready yet
    /// (or the picture is empty); a refused bitstream gives `decode: ...`.
    /// A picture is what `frame_from_planes` makes of the decoder's output.
    pub fn decode(&mut self, au: &[u8]) -> (r: Result<Option<ScreenFrame>, String>)
        ensures
            r matches Ok(Some(f)) ==> f.width % 2 == 0 && f.height % 2 == 0 && f.width > 0 && f.height > 0
                && f.pixels@.len() == f.width * f.height,
            r matches Err(m) ==> exists|e: Seq<char>| m@ == "decode: "@ + e,
            r matches Ok(Some(_)) ==> exists|p: DecodedPlanes| #[trigger] frame_of(p, r),
    {
        match decode_access_unit(&mut self.inner, au) {
            Ok(Some(planes)) => {
                let r = frame_from_planes(planes);
                proof {
                    reveal_strlit("decode: eksik kare düzlemi");
                    reveal_strlit("decode: ");
                    reveal_strlit("eksik kare düzlemi");
                    assert("decode: eksik kare düzlemi"@ =~= "decode: "@ + "eksik kare düzlemi"@);
                }
                r
            },
            Ok(None) => Ok(None),
            Err(e) => {
                let m = String::from_str("decode: ").concat(e.as_str());
                assert(m@ == "decode: "@ + e@);
                Err(m)
            },
        }
    }
}

} // verus!
