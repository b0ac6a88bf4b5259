//! Pixel geometry: image dimensions, configured bounds, and the arithmetic
//! that plans a bounding-box resize preserving aspect ratio.

use vstd::prelude::*;

verus! {

/// Width and height of a raster image, in pixels.  Both are at least 1.
#[derive(Clone, Copy, Debug, PartialEq, Eq, Structural)]
pub struct Dimensions {
    pub width: u32,
    pub height: u32,
}

/// Configured maximum width and height for the optimisation step.
#[derive(Clone, Copy, Debug, PartialEq, Eq, Structural)]
pub struct Bounds {
    pub max_width: u32,
    pub max_height: u32,
}

impl Dimensions {
    pub open spec fn wf(self) -> bool {
        self.width >= 1 && self.height >= 1
    }
}

impl Bounds {
    pub open spec fn wf(self) -> bool {
        self.max_width >= 1 && self.max_height >= 1
    }
}

/// `d` fits inside the bounding box `b` on both axes.
pub open spec fn fits(d: Dimensions, b: Bounds) -> bool {
    d.width <= b.max_width && d.height <= b.max_height
}

/// The image's aspect ratio is at least as wide as the box's, so the width is
/// the constraining axis of a bounding-box resize.
pub open spec fn width_constrained(d: Dimensions, b: Bounds) -> bool {
    d.width * b.max_height >= d.height * b.max_width
}

/// `n * num / den`, rounded half-up, and clamped below to 1 so a degenerate
/// scale still yields a valid pixel count.
pub open spec fn scale_round(n: int, num: int, den: int) -> int {
    let q = (2 * (n * num) + den) / (2 * den);
    if q < 1 {
        1
    } else {
        q
    }
}

/// Width of the planned resize of `d` into the box `b`.
pub open spec fn target_width(d: Dimensions, b: Bounds) -> int {
    if fits(d, b) {
        d.width as int
    } else if width_constrained(d, b) {
        b.max_width as int
    } else {
        scale_round(d.width as int, b.max_height as int, d.height as int)
    }
}

/// Height of the planned resize of `d` into the box `b`.
pub open spec fn target_height(d: Dimensions, b: Bounds) -> int {
    if fits(d, b) {
        d.height as int
    } else if width_constrained(d, b) {
        scale_round(d.height as int, b.max_width as int, d.width as int)
    } else {
        b.max_height as int
    }
}

/// `(2 * n * num + den) / (2 * den)` is at most `cap` whenever
/// `n * num <= den * cap`.
proof fn lemma_scale_round_le(n: int, num: int, den: int, cap: int)
    requires
        den >= 1,
        cap >= 1,
        n >= 0,
        num >= 0,
        n * num <= den * cap,
    ensures
        scale_round(n, num, den) <= cap,
{
    let x = 2 * (n * num) + den;
    let dd = 2 * den;
    assert(x <= dd * cap + (dd - 1)) by (nonlinear_arith)
        requires
            den >= 1,
            n * num <= den * cap,
            x == 2 * (n * num) + den,
            dd == 2 * den,
    ;
    vstd::arithmetic::div_mod::lemma_div_is_ordered(x, dd * cap + (dd - 1), dd);
    vstd::arithmetic::div_mod::lemma_fundamental_div_mod_converse(
        dd * cap + (dd - 1),
        dd,
        cap,
        dd - 1,
    );
    assert((dd * cap + (dd - 1)) / dd == cap);
}

/// The rounding in `scale_round` stays within half of the denominator:
/// `2 * |scale_round(n, num, den) * den - n * num| <= den`, provided the
/// clamp to 1 is not taken.
proof fn lemma_scale_round_close(n: int, num: int, den: int)
    requires
        den >= 1,
        n >= 0,
        num >= 0,
        2 * (n * num) >= den,
    ensures
        2 * (scale_round(n, num, den) * den) <= 2 * (n * num) + den,
        2 * (n * num) <= 2 * (scale_round(n, num, den) * den) + den,
{
    let x = 2 * (n * num) + den;
    let dd = 2 * den;
    let q = x / dd;
    vstd::arithmetic::div_mod::lemma_fundamental_div_mod(x, dd);
    vstd::arithmetic::div_mod::lemma_mod_bound(x, dd);
    assert(x == dd * q + x % dd);
    assert(q >= 1) by {
        if q < 1 {
            assert(x >= dd) by (nonlinear_arith)
                requires
                    den >= 1,
                    2 * (n * num) >= den,
                    x == 2 * (n * num) + den,
                    dd == 2 * den,
            ;
            assert(dd * q + x % dd < dd) by (nonlinear_arith)
                requires
                    q <= 0,
                    dd >= 2,
                    x % dd < dd,
            ;
        }
    }
    assert(scale_round(n, num, den) == q);
    assert(2 * (q * den) == dd * q) by (nonlinear_arith)
        requires
            dd == 2 * den,
    ;
}

/// Plans the resize of an image of size `d` into the bounding box `b`: the
/// result never exceeds the bounds, an image already inside the box keeps its
/// size, and otherwise the constraining axis is set to the bound while the
/// other axis is scaled proportionally, rounding half-up.
pub fn bounded_dimensions(d: Dimensions, b: Bounds) -> (r: Dimensions)
    requires
        d.wf(),
        b.wf(),
    ensures
        r.width == target_width(d, b),
        r.height == target_height(d, b),
        r.wf(),
        fits(r, b),
        fits(d, b) ==> r == d,
{
    if d.width <= b.max_width && d.height <= b.max_height {
        d
    } else {
        let w = d.width as u128;
        let h = d.height as u128;
        let bw = b.max_width as u128;
        let bh = b.max_height as u128;
        proof {
            assert(w * bh <= 0xffff_ffff * 0xffff_ffff && h * bw <= 0xffff_ffff * 0xffff_ffff)
                by (nonlinear_arith)
                requires
                    w <= 0xffff_ffff,
                    h <= 0xffff_ffff,
                    bw <= 0xffff_ffff,
                    bh <= 0xffff_ffff,
            ;
        }
        if w * bh >= h * bw {
            let q: u128 = (2 * (h * bw) + w) / (2 * w);
            let th: u128 = if q < 1 {
                1
            } else {
                q
            };
            proof {
                assert(h * bw <= w * bh) by (nonlinear_arith)
                    requires
                        w * bh >= h * bw,
                ;
                lemma_scale_round_le(h as int, bw as int, w as int, bh as int);
                assert(th == scale_round(h as int, bw as int, w as int));
            }
            Dimensions { width: b.max_width, height: th as u32 }
        } else {
            let q: u128 = (2 * (w * bh) + h) / (2 * h);
            let tw: u128 = if q < 1 {
                1
            } else {
                q
            };
            proof {
                assert(w * bh <= h * bw) by (nonlinear_arith)
                    requires
                        !(w * bh >= h * bw),
                ;
                lemma_scale_round_le(w as int, bh as int, h as int, bw as int);
                assert(tw == scale_round(w as int, bh as int, h as int));
            }
            Dimensions { width: tw as u32, height: b.max_height }
        }
    }
}

/// The planned size is always a valid image size within the bounds, and an
/// image that already fits keeps its exact size.
pub proof fn lemma_target_fits(d: Dimensions, b: Bounds)
    requires
        d.wf(),
        b.wf(),
    ensures
        1 <= target_width(d, b) <= b.max_width,
        1 <= target_height(d, b) <= b.max_height,
        fits(d, b) ==> target_width(d, b) == d.width && target_height(d, b) == d.height,
{
    if fits(d, b) {
    } else if width_constrained(d, b) {
        assert(d.height * b.max_width <= d.width * b.max_height) by (nonlinear_arith)
            requires
                d.width * b.max_height >= d.height * b.max_width,
        ;
        lemma_scale_round_le(
            d.height as int,
            b.max_width as int,
            d.width as int,
            b.max_height as int,
        );
    } else {
        assert(d.width * b.max_height <= d.height * b.max_width) by (nonlinear_arith)
            requires
                !(d.width * b.max_height >= d.height * b.max_width),
        ;
        lemma_scale_round_le(
            d.width as int,
            b.max_height as int,
            d.height as int,
            b.max_width as int,
        );
    }
}

/// For an image that exceeds the bounds on some axis and is not degenerately
/// elongated, the planned size preserves the aspect ratio up to rounding:
/// the cross products `target_height * width` and `height * target_width`
/// differ by at most half of the larger original axis.
pub proof fn lemma_aspect_ratio_preserved(d: Dimensions, b: Bounds)
    requires
        d.wf(),
        b.wf(),
        !fits(d, b),
        2 * (d.height * b.max_width) >= d.width,
        2 * (d.width * b.max_height) >= d.height,
    ensures
        2 * vstd::math::abs(
            target_height(d, b) * d.width - d.height * target_width(d, b),
        ) <= vstd::math::max(d.width as int, d.height as int),
{
    let w = d.width as int;
    let h = d.height as int;
    let bw = b.max_width as int;
    let bh = b.max_height as int;
    if width_constrained(d, b) {
        let th = scale_round(h, bw, w);
        lemma_scale_round_close(h, bw, w);
        assert(2 * (th * w) <= 2 * (h * bw) + w);
        assert(2 * (h * bw) <= 2 * (th * w) + w);
        assert(2 * (th * w - h * bw) <= w && 2 * (h * bw - th * w) <= w);
        assert(target_height(d, b) * d.width == th * w);
        assert(d.height * target_width(d, b) == h * bw);
    } else {
        let tw = scale_round(w, bh, h);
        lemma_scale_round_close(w, bh, h);
        assert(2 * (tw * h) <= 2 * (w * bh) + h);
        assert(2 * (w * bh) <= 2 * (tw * h) + h);
        assert(target_height(d, b) * d.width == bh * w);
        assert(d.height * target_width(d, b) == h * tw);
        assert(bh * w == w * bh && h * tw == tw * h) by (nonlinear_arith);
    }
}

} // verus!
