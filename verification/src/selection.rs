//! Deriving the candidate crop rectangle from a drag.
//!
//! During a drag both pointer positions are clamped to the letterboxed
//! visible part of the image, the rectangle origin is the componentwise
//! minimum and the far corner the componentwise maximum of the two, and
//! both corners are inverse-mapped into image space.  The resulting
//! rectangle therefore always has non-negative width and height, whatever
//! the drag direction, and a drag that never moved yields an empty one.

use vstd::prelude::*;

use crate::frac::Frac;
use crate::frac::Rat;
use crate::frac::lemma_rat_div_congr;
use crate::frac::lemma_rat_eq_sym;
use crate::frac::lemma_rat_eq_trans;
use crate::frac::lemma_rat_le_congr;
use crate::frac::lemma_rat_sub_congr;
use crate::frac::lemma_same_den_le;
use crate::frac::rat_add;
use crate::frac::rat_clamp;
use crate::frac::rat_eq;
use crate::frac::rat_le;
use crate::frac::rat_max;
use crate::frac::rat_min;
use crate::frac::rat_mul;
use crate::frac::rat_of_int;
use crate::frac::rat_sub;
use crate::frac::rat_wf;
use crate::image_crop::ImageCrop;
use crate::mapper::ViewportGeometry;
use crate::mapper::fwd_map;
use crate::mapper::inv_map;

verus! {

/// A pointer position clamped to the visible span of one axis:
/// `clamp(p, pad, pad + vis)`.
pub open spec fn clamp_spec(p: int, pad: Rat, vis: Rat) -> Rat {
    rat_clamp(rat_of_int(p), pad, rat_add(pad, vis))
}

/// The nearer edge of the dragged span on one axis: the smaller of the two
/// clamped pointer positions.
pub open spec fn sel_low(pi: int, pc: int, pad: Rat, vis: Rat) -> Rat {
    rat_min(clamp_spec(pi, pad, vis), clamp_spec(pc, pad, vis))
}

/// The farther edge of the dragged span on one axis: the larger of the two
/// clamped pointer positions.
pub open spec fn sel_high(pi: int, pc: int, pad: Rat, vis: Rat) -> Rat {
    rat_max(clamp_spec(pi, pad, vis), clamp_spec(pc, pad, vis))
}

/// The candidate rectangle's origin on one axis: the nearer edge
/// inverse-mapped into image space.
pub open spec fn candidate_origin(scale: Rat, pad: Rat, vis: Rat, pi: int, pc: int) -> Rat {
    inv_map(scale, pad, sel_low(pi, pc, pad, vis))
}

/// The candidate rectangle's extent on one axis: the difference of the two
/// inverse-mapped edges.
pub open spec fn candidate_extent(scale: Rat, pad: Rat, vis: Rat, pi: int, pc: int) -> Rat {
    rat_sub(
        inv_map(scale, pad, sel_high(pi, pc, pad, vis)),
        inv_map(scale, pad, sel_low(pi, pc, pad, vis)),
    )
}

/// Integer clamp to a closed interval, preferring the lower bound.
pub open spec fn clamp_int(t: int, lo: int, hi: int) -> int {
    if t < lo {
        lo
    } else if t > hi {
        hi
    } else {
        t
    }
}

/// Clamp a viewport coordinate to the visible span of one axis, in
/// numerator form over the common denominator `2 * sd`.
fn clamp_axis(sd: u64, padn: u64, visn: u64, p: u32) -> (c: u64)
    requires
        1 <= sd <= 0xFFFF,
        padn <= 0xFFFF_FFFF,
        visn <= 0xFFFF_FFFF,
    ensures
        c as int == clamp_int(
            (p as int) * (2 * (sd as int)),
            padn as int,
            padn as int + 2 * (visn as int),
        ),
        padn <= c <= padn + 2 * visn,
        rat_eq(
            Rat { num: c as int, den: 2 * (sd as int) },
            clamp_spec(
                p as int,
                Rat { num: padn as int, den: 2 * (sd as int) },
                Rat { num: visn as int, den: sd as int },
            ),
        ),
{
    proof {
        vstd::arithmetic::mul::lemma_mul_upper_bound(
            2 * (p as int),
            0x2_0000_0000,
            sd as int,
            0xFFFF,
        );
        assert((2 * (p as int)) * (sd as int) == (p as int) * (2 * (sd as int)))
            by (nonlinear_arith);
        vstd::arithmetic::mul::lemma_mul_nonnegative(p as int, 2 * (sd as int));
    }
    let t = 2 * (p as u64) * sd;
    let hi = padn + 2 * visn;
    let c = if t < padn {
        padn
    } else if t > hi {
        hi
    } else {
        t
    };
    proof {
        lemma_clamp_axis_value(sd as int, padn as int, visn as int, p as int, c as int);
    }
    c
}

/// The numerator-form clamp agrees with the rational clamp of the mapper.
proof fn lemma_clamp_axis_value(sd: int, padn: int, visn: int, p: int, c: int)
    requires
        sd >= 1,
        padn >= 0,
        visn >= 0,
        p >= 0,
        c == clamp_int(p * (2 * sd), padn, padn + 2 * visn),
    ensures
        rat_eq(
            Rat { num: c, den: 2 * sd },
            clamp_spec(p, Rat { num: padn, den: 2 * sd }, Rat { num: visn, den: sd }),
        ),
{
    let x = rat_of_int(p);
    let lo = Rat { num: padn, den: 2 * sd };
    let vis = Rat { num: visn, den: sd };
    let hi = rat_add(lo, vis);
    let t = p * (2 * sd);
    let tr = Rat { num: t, den: 2 * sd };
    let hr = Rat { num: padn + 2 * visn, den: 2 * sd };
    assert(rat_eq(tr, x));
    assert(rat_eq(hr, hi)) by {
        assert((padn + 2 * visn) * ((2 * sd) * sd) == (padn * sd + visn * (2 * sd)) * (2 * sd))
            by (nonlinear_arith);
    }
    vstd::arithmetic::mul::lemma_mul_strictly_positive(2 * sd, sd);
    lemma_rat_eq_sym(tr, x);
    lemma_rat_eq_sym(hr, hi);
    lemma_rat_le_congr(x, tr, lo, lo);
    lemma_same_den_le(tr, lo);
    lemma_rat_le_congr(x, tr, hi, hr);
    lemma_same_den_le(tr, hr);
    lemma_rat_le_congr(lo, lo, hi, hr);
    lemma_same_den_le(lo, hr);
}

/// Derive origin and extent of the candidate rectangle on one axis from the
/// two pointer positions, in numerator form: scale `sn / sd`, padding
/// `padn / (2 * sd)`, visible span `visn / sd`.
fn candidate_axis(sn: u64, sd: u64, padn: u64, visn: u64, p_i: u32, p_c: u32) -> (r: (Frac, Frac))
    requires
        1 <= sn <= 0xFFFF,
        1 <= sd <= 0xFFFF,
        padn <= 0xFFFF_FFFF,
        visn <= 0xFFFF_FFFF,
    ensures
        r.0.wf(),
        r.1.wf(),
        r.0.den == 2 * sn,
        r.1.den == 2 * sn,
        r.0.num <= 0x2_0000_0000,
        r.1.num <= 0x2_0000_0000,
        rat_eq(
            r.0@,
            candidate_origin(
                Rat { num: sn as int, den: sd as int },
                Rat { num: padn as int, den: 2 * (sd as int) },
                Rat { num: visn as int, den: sd as int },
                p_i as int,
                p_c as int,
            ),
        ),
        rat_eq(
            r.1@,
            candidate_extent(
                Rat { num: sn as int, den: sd as int },
                Rat { num: padn as int, den: 2 * (sd as int) },
                Rat { num: visn as int, den: sd as int },
                p_i as int,
                p_c as int,
            ),
        ),
        p_i == p_c ==> r.1.num == 0,
{
    let ci = clamp_axis(sd, padn, visn, p_i);
    let cc = clamp_axis(sd, padn, visn, p_c);
    let o = if ci <= cc {
        ci
    } else {
        cc
    };
    let f = if ci <= cc {
        cc
    } else {
        ci
    };
    let pos = Frac { num: o - padn, den: 2 * sn };
    let ext = Frac { num: f - o, den: 2 * sn };
    proof {
        lemma_candidate_axis_value(
            sn as int,
            sd as int,
            padn as int,
            visn as int,
            p_i as int,
            p_c as int,
            ci as int,
            cc as int,
        );
    }
    (pos, ext)
}

/// Lifting the numerator-form min/max/inverse-map computation of
/// `candidate_axis` to the rational specification.
proof fn lemma_candidate_axis_value(
    sn: int,
    sd: int,
    padn: int,
    visn: int,
    pi: int,
    pc: int,
    ci: int,
    cc: int,
)
    requires
        1 <= sn,
        1 <= sd,
        padn >= 0,
        visn >= 0,
        rat_eq(
            Rat { num: ci, den: 2 * sd },
            clamp_spec(pi, Rat { num: padn, den: 2 * sd }, Rat { num: visn, den: sd }),
        ),
        rat_eq(
            Rat { num: cc, den: 2 * sd },
            clamp_spec(pc, Rat { num: padn, den: 2 * sd }, Rat { num: visn, den: sd }),
        ),
        padn <= ci,
        padn <= cc,
    ensures
        rat_eq(
            Rat { num: (if ci <= cc { ci } else { cc }) - padn, den: 2 * sn },
            candidate_origin(
                Rat { num: sn, den: sd },
                Rat { num: padn, den: 2 * sd },
                Rat { num: visn, den: sd },
                pi,
                pc,
            ),
        ),
        rat_eq(
            Rat {
                num: (if ci <= cc { cc } else { ci }) - (if ci <= cc { ci } else { cc }),
                den: 2 * sn,
            },
            candidate_extent(
                Rat { num: sn, den: sd },
                Rat { num: padn, den: 2 * sd },
                Rat { num: visn, den: sd },
                pi,
                pc,
            ),
        ),
{
    let s = Rat { num: sn, den: sd };
    let pad = Rat { num: padn, den: 2 * sd };
    let vis = Rat { num: visn, den: sd };
    let cl_i = clamp_spec(pi, pad, vis);
    let cl_c = clamp_spec(pc, pad, vis);
    let ti = Rat { num: ci, den: 2 * sd };
    let tc = Rat { num: cc, den: 2 * sd };
    let o = if ci <= cc {
        ci
    } else {
        cc
    };
    let f = if ci <= cc {
        cc
    } else {
        ci
    };
    let orr = Rat { num: o, den: 2 * sd };
    let fr = Rat { num: f, den: 2 * sd };
    let lw = sel_low(pi, pc, pad, vis);
    let hg = sel_high(pi, pc, pad, vis);
    // Well-formedness of every rational in sight.
    vstd::arithmetic::mul::lemma_mul_strictly_positive(2 * sd, sd);
    lemma_clamp_spec_wf(pi, pad, vis);
    lemma_clamp_spec_wf(pc, pad, vis);
    // The exec min/max over one denominator picks the same side as the
    // rational min/max.
    lemma_rat_le_congr(cl_i, ti, cl_c, tc);
    lemma_same_den_le(ti, tc);
    assert(rat_eq(orr, lw) && rat_wf(lw)) by {
        if ci <= cc {
            lemma_rat_eq_sym(tc, cl_c);
        } else {
            lemma_rat_eq_sym(ti, cl_i);
        }
    }
    assert(rat_eq(fr, hg) && rat_wf(hg));
    // Inverse-map both edges.
    lemma_inv_edge(sn, sd, padn, o, orr, lw);
    lemma_inv_edge(sn, sd, padn, f, fr, hg);
    // The extent is the difference of the two inverse-mapped edges.
    let ivl = inv_map(s, pad, lw);
    let ivh = inv_map(s, pad, hg);
    let or2 = Rat { num: o - padn, den: 2 * sn };
    let fr2 = Rat { num: f - padn, den: 2 * sn };
    lemma_inv_map_wf(s, pad, lw);
    lemma_inv_map_wf(s, pad, hg);
    lemma_rat_sub_congr(fr2, ivh, or2, ivl);
    lemma_same_den_sub(f - padn, o - padn, 2 * sn);
    let d2 = Rat { num: (f - padn) - (o - padn), den: 2 * sn };
    vstd::arithmetic::mul::lemma_mul_strictly_positive(2 * sn, 2 * sn);
    lemma_rat_eq_trans(Rat { num: f - o, den: 2 * sn }, d2, rat_sub(fr2, or2));
    lemma_rat_eq_trans(Rat { num: f - o, den: 2 * sn }, rat_sub(fr2, or2), rat_sub(ivh, ivl));
}

/// A clamped position is a well-formed rational.
proof fn lemma_clamp_spec_wf(p: int, pad: Rat, vis: Rat)
    requires
        rat_wf(pad),
        rat_wf(vis),
    ensures
        rat_wf(clamp_spec(p, pad, vis)),
{
    vstd::arithmetic::mul::lemma_mul_strictly_positive(pad.den, vis.den);
}

/// The inverse map of a well-formed argument is well formed.
proof fn lemma_inv_map_wf(s: Rat, pad: Rat, v: Rat)
    requires
        rat_wf(pad),
        rat_wf(v),
        s.num >= 1,
    ensures
        rat_wf(inv_map(s, pad, v)),
{
    vstd::arithmetic::mul::lemma_mul_strictly_positive(v.den, pad.den);
    vstd::arithmetic::mul::lemma_mul_strictly_positive(v.den * pad.den, s.num);
}

/// Inverse-map one clamped edge: from the numerator form over `2 * sd` to
/// the rational inverse map of the edge's specification value.
proof fn lemma_inv_edge(sn: int, sd: int, padn: int, e: int, er: Rat, ev: Rat)
    requires
        1 <= sn,
        1 <= sd,
        er == (Rat { num: e, den: 2 * sd }),
        rat_eq(er, ev),
        rat_wf(ev),
    ensures
        rat_eq(
            Rat { num: e - padn, den: 2 * sn },
            inv_map(Rat { num: sn, den: sd }, Rat { num: padn, den: 2 * sd }, ev),
        ),
{
    let s = Rat { num: sn, den: sd };
    let pad = Rat { num: padn, den: 2 * sd };
    lemma_inv_same_den(e, padn, sn, sd);
    lemma_rat_sub_congr(er, ev, pad, pad);
    vstd::arithmetic::mul::lemma_mul_strictly_positive(2 * sd, 2 * sd);
    vstd::arithmetic::mul::lemma_mul_strictly_positive(ev.den, 2 * sd);
    lemma_rat_div_congr(rat_sub(er, pad), rat_sub(ev, pad), s, s);
    vstd::arithmetic::mul::lemma_mul_strictly_positive((2 * sd) * (2 * sd), sn);
    lemma_rat_eq_trans(
        Rat { num: e - padn, den: 2 * sn },
        inv_map(s, pad, er),
        inv_map(s, pad, ev),
    );
}

/// `(e - padn) / (2 * sn)` is exactly the inverse map of `e / (2 * sd)`.
proof fn lemma_inv_same_den(e: int, padn: int, sn: int, sd: int)
    requires
        1 <= sn,
        1 <= sd,
    ensures
        rat_eq(
            Rat { num: e - padn, den: 2 * sn },
            inv_map(
                Rat { num: sn, den: sd },
                Rat { num: padn, den: 2 * sd },
                Rat { num: e, den: 2 * sd },
            ),
        ),
{
    vstd::arithmetic::mul::lemma_mul_is_distributive_sub_other_way(2 * sd, e, padn);
    assert((e - padn) * (((2 * sd) * (2 * sd)) * sn) == (((e - padn) * (2 * sd)) * sd) * (2 * sn))
        by (nonlinear_arith);
}

/// Subtraction of two fractions over one denominator happens on the
/// numerators.
proof fn lemma_same_den_sub(a: int, b: int, d: int)
    requires
        d >= 1,
    ensures
        rat_eq(Rat { num: a - b, den: d }, rat_sub(Rat { num: a, den: d }, Rat { num: b, den: d })),
{
    assert((a - b) * (d * d) == (a * d - b * d) * d) by (nonlinear_arith);
}

/// The candidate rectangle for the current drag: both pointer positions are
/// clamped to the letterboxed visible part of the image, the origin is
/// their componentwise minimum and the far corner their componentwise
/// maximum, and both are inverse-mapped into image space.  The width and
/// height are never negative, whatever the drag direction, and a drag that
/// never moved yields an empty rectangle.
pub fn candidate_rect(g: &ViewportGeometry, initial: (u32, u32), current: (u32, u32)) -> (r:
    ImageCrop)
    requires
        g.wf(),
    ensures
        r is Cropped,
        r.wf(),
        r.bounded(),
        (r matches ImageCrop::Cropped { crop_x, crop_y, width, height } ==> {
            &&& rat_eq(
                crop_x@,
                candidate_origin(
                    g.scale@,
                    g.padding_x@,
                    g.visible_width@,
                    initial.0 as int,
                    current.0 as int,
                ),
            )
            &&& rat_eq(
                crop_y@,
                candidate_origin(
                    g.scale@,
                    g.padding_y@,
                    g.visible_height@,
                    initial.1 as int,
                    current.1 as int,
                ),
            )
            &&& rat_eq(
                width@,
                candidate_extent(
                    g.scale@,
                    g.padding_x@,
                    g.visible_width@,
                    initial.0 as int,
                    current.0 as int,
                ),
            )
            &&& rat_eq(
                height@,
                candidate_extent(
                    g.scale@,
                    g.padding_y@,
                    g.visible_height@,
                    initial.1 as int,
                    current.1 as int,
                ),
            )
            &&& rat_le(rat_of_int(0), width@)
            &&& rat_le(rat_of_int(0), height@)
            &&& (initial == current ==> rat_eq(width@, rat_of_int(0)) && rat_eq(
                height@,
                rat_of_int(0),
            ))
        }),
    {
    proof {
        crate::mapper::lemma_geometry_bounds(*g);
    }
    let (x, w) = candidate_axis(
        g.scale.num,
        g.scale.den,
        g.padding_x.num,
        g.visible_width.num,
        initial.0,
        current.0,
    );
    let (y, h) = candidate_axis(
        g.scale.num,
        g.scale.den,
        g.padding_y.num,
        g.visible_height.num,
        initial.1,
        current.1,
    );
    proof {
        vstd::arithmetic::mul::lemma_mul_nonnegative(w.num as int, 2 * (g.scale.num as int));
        vstd::arithmetic::mul::lemma_mul_nonnegative(h.num as int, 2 * (g.scale.num as int));
    }
    ImageCrop::Cropped { crop_x: x, crop_y: y, width: w, height: h }
}

/// An image-space length scaled into viewport space: `len * scale`, with no
/// padding offset.  Used to size the on-screen selection box.
pub fn scale_to_viewport(g: &ViewportGeometry, len: &Frac) -> (r: Frac)
    requires
        g.wf(),
        len.wf(),
        len.num <= 0x2_0000_0000,
        len.den <= 0x2_0000,
    ensures
        r.wf(),
        rat_eq(r@, rat_mul(len@, g.scale@)),
    {
    proof {
        crate::mapper::lemma_geometry_bounds(*g);
        vstd::arithmetic::mul::lemma_mul_upper_bound(
            len.num as int,
            0x2_0000_0000,
            g.scale.num as int,
            0xFFFF,
        );
        vstd::arithmetic::mul::lemma_mul_upper_bound(
            len.den as int,
            0x2_0000,
            g.scale.den as int,
            0xFFFF,
        );
        vstd::arithmetic::mul::lemma_mul_strictly_positive(
            len.den as int,
            g.scale.den as int,
        );
    }
    Frac { num: len.num * g.scale.num, den: len.den * g.scale.den }
}

/// The on-screen box for the current rectangle when no drag is active:
/// origin forward-mapped into viewport space, size scaled.  While no
/// rectangle is defined the box is empty at the viewport origin.
pub fn overlay_box(g: &ViewportGeometry, crop: &ImageCrop) -> (r: (Frac, Frac, Frac, Frac))
    requires
        g.wf(),
        crop.wf(),
        crop.bounded(),
    ensures
        r.0.wf() && r.1.wf() && r.2.wf() && r.3.wf(),
        match *crop {
            ImageCrop::Cropped { crop_x, crop_y, width, height } => {
                &&& rat_eq(r.0@, fwd_map(g.scale@, g.padding_x@, crop_x@))
                &&& rat_eq(r.1@, fwd_map(g.scale@, g.padding_y@, crop_y@))
                &&& rat_eq(r.2@, rat_mul(width@, g.scale@))
                &&& rat_eq(r.3@, rat_mul(height@, g.scale@))
            },
            ImageCrop::Uninitialized => {
                &&& rat_eq(r.0@, rat_of_int(0))
                &&& rat_eq(r.1@, rat_of_int(0))
                &&& rat_eq(r.2@, rat_of_int(0))
                &&& rat_eq(r.3@, rat_of_int(0))
            },
        },
    {
    match crop {
        ImageCrop::Cropped { crop_x, crop_y, width, height } => {
            let x = g.forward_map_x(crop_x);
            let y = g.forward_map_y(crop_y);
            let w = scale_to_viewport(g, width);
            let h = scale_to_viewport(g, height);
            (x, y, w, h)
        },
        ImageCrop::Uninitialized => {
            (
                Frac { num: 0, den: 1 },
                Frac { num: 0, den: 1 },
                Frac { num: 0, den: 1 },
                Frac { num: 0, den: 1 },
            )
        },
    }
}

} // verus!
