//! Coordinate mapper between image pixel space and the display viewport.
//!
//! The image is drawn with a "contain" fit: one uniform scale makes it as
//! large as possible inside the viewport while preserving its aspect ratio,
//! and the leftover space on the shorter axis is split into two equal
//! letterbox paddings.  Forward mapping takes an image coordinate to a
//! viewport coordinate (`v = x * scale + padding`); inverse mapping undoes it
//! (`x = (v - padding) / scale`).  Everything is exact rational arithmetic.

use vstd::prelude::*;

use crate::frac::Frac;
use crate::frac::Rat;
use crate::frac::lemma_rat_div_congr;
use crate::frac::lemma_rat_eq_trans;
use crate::frac::lemma_rat_sub_congr;
use crate::frac::rat_add;
use crate::frac::rat_div;
use crate::frac::rat_eq;
use crate::frac::rat_le;
use crate::frac::rat_mul;
use crate::frac::rat_of_int;
use crate::frac::rat_sub;
use crate::frac::rat_wf;

verus! {

/// Largest viewport or image dimension the mapper accepts, so that every
/// intermediate product of the exact arithmetic fits in a `u64`.
pub const MAX_DIM: u32 = 0xFFFF;

/// Forward mapping of one axis: image coordinate to viewport coordinate.
pub open spec fn fwd_map(scale: Rat, pad: Rat, x: Rat) -> Rat {
    rat_add(rat_mul(x, scale), pad)
}

/// Inverse mapping of one axis: viewport coordinate to image coordinate.
pub open spec fn inv_map(scale: Rat, pad: Rat, v: Rat) -> Rat {
    rat_div(rat_sub(v, pad), scale)
}

/// The geometry of one frame: how the image currently sits in the viewport.
/// Derived afresh from the viewport and image sizes whenever either changes,
/// never persisted.
#[derive(Clone, Copy, Debug)]
pub struct ViewportGeometry {
    pub viewport_w: u32,
    pub viewport_h: u32,
    pub image_w: u32,
    pub image_h: u32,
    /// Viewport pixels per image pixel, contain fit.
    pub scale: Frac,
    /// Letterbox offset on the x axis (zero unless the viewport is wider).
    pub padding_x: Frac,
    /// Letterbox offset on the y axis (zero unless the viewport is taller).
    pub padding_y: Frac,
    /// `image_w * scale`.
    pub visible_width: Frac,
    /// `image_h * scale`.
    pub visible_height: Frac,
}

impl ViewportGeometry {
    /// The derived fields hold exactly the contain-fit values for the four
    /// dimensions, and all dimensions are positive and bounded.
    pub open spec fn wf(self) -> bool {
        &&& 1 <= self.viewport_w <= MAX_DIM
        &&& 1 <= self.viewport_h <= MAX_DIM
        &&& 1 <= self.image_w <= MAX_DIM
        &&& 1 <= self.image_h <= MAX_DIM
        &&& self.scale == (if (self.viewport_w as int) * (self.image_h as int) > (self.image_w
            as int) * (self.viewport_h as int) {
            Frac { num: self.viewport_h as u64, den: self.image_h as u64 }
        } else {
            Frac { num: self.viewport_w as u64, den: self.image_w as u64 }
        })
        &&& self.padding_x.num == (self.viewport_w as int) * (self.scale.den as int) - (
        self.image_w as int) * (self.scale.num as int)
        &&& self.padding_x.den == 2 * (self.scale.den as int)
        &&& self.padding_y.num == (self.viewport_h as int) * (self.scale.den as int) - (
        self.image_h as int) * (self.scale.num as int)
        &&& self.padding_y.den == 2 * (self.scale.den as int)
        &&& self.visible_width.num == (self.image_w as int) * (self.scale.num as int)
        &&& self.visible_width.den == self.scale.den
        &&& self.visible_height.num == (self.image_h as int) * (self.scale.num as int)
        &&& self.visible_height.den == self.scale.den
    }

    /// Compute the contain-fit geometry for an image of `image_w x image_h`
    /// pixels shown in a viewport of `viewport_w x viewport_h` display
    /// pixels.  Undefined for empty sizes, which callers must skip.
    pub fn new(viewport_w: u32, viewport_h: u32, image_w: u32, image_h: u32) -> (g:
        ViewportGeometry)
        requires
            1 <= viewport_w <= MAX_DIM,
            1 <= viewport_h <= MAX_DIM,
            1 <= image_w <= MAX_DIM,
            1 <= image_h <= MAX_DIM,
        ensures
            g.wf(),
            g.viewport_w == viewport_w,
            g.viewport_h == viewport_h,
            g.image_w == image_w,
            g.image_h == image_h,
            rat_eq(g.visible_width@, rat_mul(rat_of_int(image_w as int), g.scale@)),
            rat_eq(g.visible_height@, rat_mul(rat_of_int(image_h as int), g.scale@)),
            rat_eq(
                g.padding_x@,
                rat_div(
                    rat_sub(rat_of_int(viewport_w as int), g.visible_width@),
                    rat_of_int(2),
                ),
            ),
            rat_eq(
                g.padding_y@,
                rat_div(
                    rat_sub(rat_of_int(viewport_h as int), g.visible_height@),
                    rat_of_int(2),
                ),
            ),
            rat_le(rat_of_int(0), g.padding_x@),
            rat_le(rat_of_int(0), g.padding_y@),
    {
        let wv = viewport_w as u64;
        let hv = viewport_h as u64;
        let iw = image_w as u64;
        let ih = image_h as u64;
        proof {
            vstd::arithmetic::mul::lemma_mul_upper_bound(wv as int, 0xFFFF, ih as int, 0xFFFF);
            vstd::arithmetic::mul::lemma_mul_upper_bound(iw as int, 0xFFFF, hv as int, 0xFFFF);
            vstd::arithmetic::mul::lemma_mul_upper_bound(hv as int, 0xFFFF, ih as int, 0xFFFF);
            vstd::arithmetic::mul::lemma_mul_upper_bound(iw as int, 0xFFFF, wv as int, 0xFFFF);
            vstd::arithmetic::mul::lemma_mul_upper_bound(hv as int, 0xFFFF, iw as int, 0xFFFF);
            vstd::arithmetic::mul::lemma_mul_upper_bound(ih as int, 0xFFFF, wv as int, 0xFFFF);
            vstd::arithmetic::mul::lemma_mul_is_commutative(wv as int, iw as int);
            vstd::arithmetic::mul::lemma_mul_is_commutative(hv as int, ih as int);
            vstd::arithmetic::mul::lemma_mul_is_commutative(ih as int, wv as int);
            vstd::arithmetic::mul::lemma_mul_is_commutative(hv as int, iw as int);
        }
        let taller = wv * ih > iw * hv;
        let sn: u64 = if taller {
            hv
        } else {
            wv
        };
        let sd: u64 = if taller {
            ih
        } else {
            iw
        };
        let pad_x_num = wv * sd - iw * sn;
        let pad_y_num = hv * sd - ih * sn;
        let g = ViewportGeometry {
            viewport_w,
            viewport_h,
            image_w,
            image_h,
            scale: Frac { num: sn, den: sd },
            padding_x: Frac { num: pad_x_num, den: 2 * sd },
            padding_y: Frac { num: pad_y_num, den: 2 * sd },
            visible_width: Frac { num: iw * sn, den: sd },
            visible_height: Frac { num: ih * sn, den: sd },
        };
        proof {
            lemma_geometry_values(g);
        }
        g
    }
}

impl ViewportGeometry {
    /// Forward-map an image-space x coordinate into viewport space.
    pub fn forward_map_x(&self, x: &Frac) -> (r: Frac)
        requires
            self.wf(),
            x.wf(),
            x.num <= 0x2_0000_0000,
            x.den <= 0x2_0000,
        ensures
            r.wf(),
            rat_eq(r@, fwd_map(self.scale@, self.padding_x@, x@)),
    {
        proof {
            lemma_geometry_bounds(*self);
        }
        fwd_axis(self.scale.num, self.scale.den, self.padding_x.num, *x)
    }

    /// Forward-map an image-space y coordinate into viewport space.
    pub fn forward_map_y(&self, y: &Frac) -> (r: Frac)
        requires
            self.wf(),
            y.wf(),
            y.num <= 0x2_0000_0000,
            y.den <= 0x2_0000,
        ensures
            r.wf(),
            rat_eq(r@, fwd_map(self.scale@, self.padding_y@, y@)),
    {
        proof {
            lemma_geometry_bounds(*self);
        }
        fwd_axis(self.scale.num, self.scale.den, self.padding_y.num, *y)
    }

    /// Inverse-map a viewport-space x coordinate that lies within the
    /// letterboxed visible span of the image (callers clamp first).
    pub fn inverse_map_x(&self, v: u32) -> (r: Frac)
        requires
            self.wf(),
            rat_le(self.padding_x@, rat_of_int(v as int)),
            rat_le(rat_of_int(v as int), rat_add(self.padding_x@, self.visible_width@)),
        ensures
            r.wf(),
            rat_eq(r@, inv_map(self.scale@, self.padding_x@, rat_of_int(v as int))),
            r.num <= 0x2_0000_0000,
            r.den <= 0x2_0000,
    {
        proof {
            lemma_geometry_bounds(*self);
            lemma_in_span_bounds(
                self.padding_x.num as int,
                self.visible_width.num as int,
                self.scale.den as int,
                v as int,
            );
        }
        inv_axis(self.scale.num, self.scale.den, self.padding_x.num, v as u64)
    }

    /// Inverse-map a viewport-space y coordinate that lies within the
    /// letterboxed visible span of the image (callers clamp first).
    pub fn inverse_map_y(&self, v: u32) -> (r: Frac)
        requires
            self.wf(),
            rat_le(self.padding_y@, rat_of_int(v as int)),
            rat_le(rat_of_int(v as int), rat_add(self.padding_y@, self.visible_height@)),
        ensures
            r.wf(),
            rat_eq(r@, inv_map(self.scale@, self.padding_y@, rat_of_int(v as int))),
            r.num <= 0x2_0000_0000,
            r.den <= 0x2_0000,
    {
        proof {
            lemma_geometry_bounds(*self);
            lemma_in_span_bounds(
                self.padding_y.num as int,
                self.visible_height.num as int,
                self.scale.den as int,
                v as int,
            );
        }
        inv_axis(self.scale.num, self.scale.den, self.padding_y.num, v as u64)
    }
}

/// The padding numerators of a well-formed geometry fit in 32 bits.
pub proof fn lemma_geometry_bounds(g: ViewportGeometry)
    requires
        g.wf(),
    ensures
        g.padding_x.num <= 0xFFFF_FFFF,
        g.padding_y.num <= 0xFFFF_FFFF,
        g.scale.num >= 1,
        g.scale.den >= 1,
        g.scale.num <= 0xFFFF,
        g.scale.den <= 0xFFFF,
        g.visible_width.num <= 0xFFFF_FFFF,
        g.visible_height.num <= 0xFFFF_FFFF,
{
    vstd::arithmetic::mul::lemma_mul_upper_bound(
        g.viewport_w as int,
        0xFFFF,
        g.scale.den as int,
        0xFFFF,
    );
    vstd::arithmetic::mul::lemma_mul_upper_bound(
        g.viewport_h as int,
        0xFFFF,
        g.scale.den as int,
        0xFFFF,
    );
    vstd::arithmetic::mul::lemma_mul_upper_bound(
        g.image_w as int,
        0xFFFF,
        g.scale.num as int,
        0xFFFF,
    );
    vstd::arithmetic::mul::lemma_mul_upper_bound(
        g.image_h as int,
        0xFFFF,
        g.scale.num as int,
        0xFFFF,
    );
    vstd::arithmetic::mul::lemma_mul_nonnegative(g.image_w as int, g.scale.num as int);
    vstd::arithmetic::mul::lemma_mul_nonnegative(g.image_h as int, g.scale.num as int);
}

/// A viewport coordinate below `pad + vis` (stated as rationals over the
/// common denominator `2 * sd`) is bounded in numerator form.
proof fn lemma_in_span_bounds(padn: int, visn: int, sd: int, v: int)
    requires
        sd >= 1,
        v >= 0,
        padn * 1 <= v * (2 * sd),
        v * ((2 * sd) * sd) <= (padn * sd + visn * (2 * sd)) * 1,
    ensures
        padn <= v * (2 * sd),
        v * (2 * sd) <= padn + 2 * visn,
{
    assert(v * (2 * sd) <= padn + 2 * visn) by (nonlinear_arith)
        requires
            sd >= 1,
            v * ((2 * sd) * sd) <= (padn * sd + visn * (2 * sd)) * 1,
    ;
}

/// Internal forward mapping of one axis, with the geometry in numerator
/// form: scale `sn / sd`, padding `padn / (2 * sd)`.
fn fwd_axis(sn: u64, sd: u64, padn: u64, x: Frac) -> (r: Frac)
    requires
        1 <= sn <= 0xFFFF,
        1 <= sd <= 0xFFFF,
        padn <= 0xFFFF_FFFF,
        x.wf(),
        x.num <= 0x2_0000_0000,
        x.den <= 0x2_0000,
    ensures
        r.wf(),
        rat_eq(
            r@,
            fwd_map(
                Rat { num: sn as int, den: sd as int },
                Rat { num: padn as int, den: 2 * (sd as int) },
                x@,
            ),
        ),
{
    proof {
        vstd::arithmetic::mul::lemma_mul_upper_bound(
            2 * (x.num as int),
            0x4_0000_0000,
            sn as int,
            0xFFFF,
        );
        vstd::arithmetic::mul::lemma_mul_upper_bound(
            x.den as int,
            0x2_0000,
            padn as int,
            0xFFFF_FFFF,
        );
        vstd::arithmetic::mul::lemma_mul_upper_bound(2 * (x.den as int), 0x4_0000, sd as int, 0xFFFF);
        vstd::arithmetic::mul::lemma_mul_strictly_positive(2 * (x.den as int), sd as int);
    }
    let num = 2 * x.num * sn + x.den * padn;
    let den = 2 * x.den * sd;
    proof {
        lemma_fwd_axis_value(x.num as int, x.den as int, sn as int, sd as int, padn as int);
    }
    Frac { num, den }
}

/// Cross-multiplied identity behind `fwd_axis`.
proof fn lemma_fwd_axis_value(xn: int, xd: int, sn: int, sd: int, padn: int)
    ensures
        (2 * xn * sn + xd * padn) * ((xd * sd) * (2 * sd)) == ((xn * sn) * (2 * sd) + padn * (xd
            * sd)) * (2 * xd * sd),
{
    vstd::arithmetic::mul::lemma_mul_is_distributive_add_other_way(
        (xd * sd) * (2 * sd),
        2 * xn * sn,
        xd * padn,
    );
    vstd::arithmetic::mul::lemma_mul_is_distributive_add_other_way(
        2 * xd * sd,
        (xn * sn) * (2 * sd),
        padn * (xd * sd),
    );
    assert((2 * xn * sn) * ((xd * sd) * (2 * sd)) == ((xn * sn) * (2 * sd)) * (2 * xd * sd))
        by (nonlinear_arith);
    assert((xd * padn) * ((xd * sd) * (2 * sd)) == (padn * (xd * sd)) * (2 * xd * sd))
        by (nonlinear_arith);
}

/// Internal inverse mapping of one axis: the viewport coordinate `v` lies
/// within the visible span, so the image coordinate `(v - pad) / scale`
/// reduces to `(2 * v * sd - padn) / (2 * sn)`.
fn inv_axis(sn: u64, sd: u64, padn: u64, v: u64) -> (r: Frac)
    requires
        1 <= sn <= 0xFFFF,
        1 <= sd <= 0xFFFF,
        padn <= 0xFFFF_FFFF,
        padn <= (v as int) * (2 * (sd as int)),
        (v as int) * (2 * (sd as int)) <= padn + 2 * 0xFFFF_FFFF,
    ensures
        r.wf(),
        r.den == 2 * sn,
        r.num as int == (v as int) * (2 * (sd as int)) - padn,
        rat_eq(
            r@,
            inv_map(
                Rat { num: sn as int, den: sd as int },
                Rat { num: padn as int, den: 2 * (sd as int) },
                rat_of_int(v as int),
            ),
        ),
        r.num <= 0x2_0000_0000,
        r.den <= 0x2_0000,
{
    proof {
        assert((v as int) * (2 * (sd as int)) == 2 * ((v as int) * (sd as int)))
            by (nonlinear_arith);
    }
    let num = 2 * (v * sd) - padn;
    let den = 2 * sn;
    proof {
        lemma_inv_axis_value(v as int, sn as int, sd as int, padn as int);
    }
    Frac { num, den }
}

/// Cross-multiplied identity behind `inv_axis`.
proof fn lemma_inv_axis_value(v: int, sn: int, sd: int, padn: int)
    ensures
        (2 * (v * sd) - padn) * ((1 * (2 * sd)) * sn) == ((v * (2 * sd) - padn * 1) * sd) * (2
            * sn),
{
    assert((2 * (v * sd) - padn) * ((1 * (2 * sd)) * sn) == ((v * (2 * sd) - padn * 1) * sd) * (2
        * sn)) by (nonlinear_arith);
}

/// Adding then subtracting the same rational is the identity.
pub proof fn lemma_add_sub_cancel(u: Rat, p: Rat)
    requires
        rat_wf(u),
        rat_wf(p),
    ensures
        rat_eq(rat_sub(rat_add(u, p), p), u),
{
    assert(((u.num * p.den + p.num * u.den) * p.den - p.num * (u.den * p.den)) * u.den == u.num * (
    (u.den * p.den) * p.den)) by (nonlinear_arith);
}

/// Multiplying then dividing by the same non-zero rational is the identity.
pub proof fn lemma_mul_div_cancel(x: Rat, s: Rat)
    requires
        rat_wf(x),
        rat_wf(s),
        s.num != 0,
    ensures
        rat_eq(rat_div(rat_mul(x, s), s), x),
{
    assert(((x.num * s.num) * s.den) * x.den == x.num * ((x.den * s.den) * s.num))
        by (nonlinear_arith);
}

/// The mapper's round trip is the identity: for every viewport and image
/// size the contain fit allows, forward-mapping any image-space coordinate
/// into viewport space and inverse-mapping it back yields the original
/// value, on both axes, exactly.
pub proof fn lemma_forward_inverse_identity(g: ViewportGeometry, x: Rat)
    requires
        g.wf(),
        rat_wf(x),
    ensures
        rat_eq(inv_map(g.scale@, g.padding_x@, fwd_map(g.scale@, g.padding_x@, x)), x),
        rat_eq(inv_map(g.scale@, g.padding_y@, fwd_map(g.scale@, g.padding_y@, x)), x),
{
    lemma_fwd_then_inv(g.scale@, g.padding_x@, x);
    lemma_fwd_then_inv(g.scale@, g.padding_y@, x);
}

/// Round-trip identity for one axis, over the rational model.
pub proof fn lemma_fwd_then_inv(scale: Rat, pad: Rat, x: Rat)
    requires
        rat_wf(scale),
        rat_wf(pad),
        rat_wf(x),
        scale.num > 0,
    ensures
        rat_eq(inv_map(scale, pad, fwd_map(scale, pad, x)), x),
{
    let m = rat_mul(x, scale);
    let f = rat_add(m, pad);
    vstd::arithmetic::mul::lemma_mul_strictly_positive(x.den, scale.den);
    vstd::arithmetic::mul::lemma_mul_strictly_positive(m.den, pad.den);
    vstd::arithmetic::mul::lemma_mul_strictly_positive(f.den, pad.den);
    lemma_add_sub_cancel(m, pad);
    lemma_rat_div_congr(rat_sub(f, pad), m, scale, scale);
    lemma_mul_div_cancel(x, scale);
    vstd::arithmetic::mul::lemma_mul_nonzero(m.den, scale.num);
    lemma_rat_eq_trans(inv_map(scale, pad, f), rat_div(m, scale), x);
}

/// The stored paddings and visible sizes of a well-formed geometry agree
/// with the contain-fit formulas of the mapper.
proof fn lemma_geometry_values(g: ViewportGeometry)
    requires
        g.wf(),
    ensures
        rat_eq(g.visible_width@, rat_mul(rat_of_int(g.image_w as int), g.scale@)),
        rat_eq(g.visible_height@, rat_mul(rat_of_int(g.image_h as int), g.scale@)),
        rat_eq(
            g.padding_x@,
            rat_div(rat_sub(rat_of_int(g.viewport_w as int), g.visible_width@), rat_of_int(2)),
        ),
        rat_eq(
            g.padding_y@,
            rat_div(rat_sub(rat_of_int(g.viewport_h as int), g.visible_height@), rat_of_int(2)),
        ),
        rat_le(rat_of_int(0), g.padding_x@),
        rat_le(rat_of_int(0), g.padding_y@),
{
    let sn = g.scale.num as int;
    let sd = g.scale.den as int;
    let iw = g.image_w as int;
    let ih = g.image_h as int;
    let wv = g.viewport_w as int;
    let hv = g.viewport_h as int;
    assert((iw * sn) * (1 * sd) == (1 * (iw * sn)) * sd) by (nonlinear_arith);
    assert((ih * sn) * (1 * sd) == (1 * (ih * sn)) * sd) by (nonlinear_arith);
    assert((wv * sd - iw * sn) * (sd * 2) == ((wv * sd - (iw * sn) * 1) * 1) * (2 * sd))
        by (nonlinear_arith);
    assert((hv * sd - ih * sn) * (sd * 2) == ((hv * sd - (ih * sn) * 1) * 1) * (2 * sd))
        by (nonlinear_arith);
    assert(0 * (2 * sd) <= g.padding_x.num as int * 1) by (nonlinear_arith)
        requires
            g.padding_x.num >= 0,
            sd >= 1,
    ;
    assert(0 * (2 * sd) <= g.padding_y.num as int * 1) by (nonlinear_arith)
        requires
            g.padding_y.num >= 0,
            sd >= 1,
    ;
}

} // verus!
