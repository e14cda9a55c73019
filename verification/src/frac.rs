//! Exact rational coordinates.
//!
//! Display scale factors such as `800 / 1000` and the crop values they
//! produce are rarely whole numbers, so every coordinate in the library is a
//! non-negative fraction [`Frac`].  Its mathematical model is [`Rat`], a pair
//! of unbounded integers compared by cross multiplication; all contracts in
//! the crate are stated over `Rat` values.

use vstd::prelude::*;

verus! {

/// Mathematical rational number `num / den`; the specification-level model of
/// [`Frac`].  Meaningful whenever `den > 0`.
pub struct Rat {
    pub num: int,
    pub den: int,
}

/// A rational is well formed when its denominator is positive.
pub open spec fn rat_wf(a: Rat) -> bool {
    a.den > 0
}

/// Value equality by cross multiplication: `a.num / a.den == b.num / b.den`.
pub open spec fn rat_eq(a: Rat, b: Rat) -> bool {
    a.num * b.den == b.num * a.den
}

/// Value ordering by cross multiplication (for positive denominators).
pub open spec fn rat_le(a: Rat, b: Rat) -> bool {
    a.num * b.den <= b.num * a.den
}

/// The integer `n` as a rational.
pub open spec fn rat_of_int(n: int) -> Rat {
    Rat { num: n, den: 1 }
}

pub open spec fn rat_add(a: Rat, b: Rat) -> Rat {
    Rat { num: a.num * b.den + b.num * a.den, den: a.den * b.den }
}

pub open spec fn rat_sub(a: Rat, b: Rat) -> Rat {
    Rat { num: a.num * b.den - b.num * a.den, den: a.den * b.den }
}

pub open spec fn rat_mul(a: Rat, b: Rat) -> Rat {
    Rat { num: a.num * b.num, den: a.den * b.den }
}

pub open spec fn rat_div(a: Rat, b: Rat) -> Rat {
    Rat { num: a.num * b.den, den: a.den * b.num }
}

pub open spec fn rat_min(a: Rat, b: Rat) -> Rat {
    if rat_le(a, b) {
        a
    } else {
        b
    }
}

pub open spec fn rat_max(a: Rat, b: Rat) -> Rat {
    if rat_le(a, b) {
        b
    } else {
        a
    }
}

/// `x` limited to the closed interval `[lo, hi]`, preferring `lo` when the
/// interval is empty (mirrors `x.max(lo).min(hi)`).
pub open spec fn rat_clamp(x: Rat, lo: Rat, hi: Rat) -> Rat {
    rat_min(rat_max(x, lo), hi)
}

/// The integer part of a non-negative rational (truncation toward zero).
pub open spec fn rat_floor(a: Rat) -> int {
    a.num / a.den
}

/// An executable non-negative fraction.  The coordinate values of the crop
/// engine: image-space and viewport-space positions, the contain-fit scale,
/// and the letterbox paddings are all `Frac`s.
#[derive(Clone, Copy, Debug)]
pub struct Frac {
    pub num: u64,
    pub den: u64,
}

impl View for Frac {
    type V = Rat;

    open spec fn view(&self) -> Rat {
        Rat { num: self.num as int, den: self.den as int }
    }
}

impl Frac {
    /// A fraction is well formed when its denominator is at least one.
    pub open spec fn wf(self) -> bool {
        self.den >= 1
    }

    pub fn new(num: u64, den: u64) -> (r: Frac)
        requires
            den >= 1,
        ensures
            r.num == num,
            r.den == den,
            r.wf(),
    {
        Frac { num, den }
    }

    pub fn from_u32(n: u32) -> (r: Frac)
        ensures
            r.num == n,
            r.den == 1,
            r.wf(),
            rat_eq(r@, rat_of_int(n as int)),
    {
        Frac { num: n as u64, den: 1 }
    }

    /// Value comparison `self <= other`, exact in 128-bit intermediates.
    pub fn le(&self, other: &Frac) -> (r: bool)
        ensures
            r == rat_le(self@, other@),
    {
        proof {
            lemma_u64_mul_fits_u128(self.num, other.den);
            lemma_u64_mul_fits_u128(other.num, self.den);
        }
        (self.num as u128) * (other.den as u128) <= (other.num as u128) * (self.den as u128)
    }

    /// Integer part as a `u32`, saturating at `u32::MAX` (the behaviour of a
    /// float-to-`u32` cast, which the crop fields and the exporter rely on).
    pub fn trunc_u32(&self) -> (r: u32)
        requires
            self.wf(),
        ensures
            r as int == rat_floor_u32(self@),
    {
        let q = self.num / self.den;
        if q > u32::MAX as u64 {
            u32::MAX
        } else {
            q as u32
        }
    }
}

/// The integer part of a non-negative rational, saturated to the `u32` range.
pub open spec fn rat_floor_u32(a: Rat) -> int {
    if rat_floor(a) > u32::MAX as int {
        u32::MAX as int
    } else {
        rat_floor(a)
    }
}

impl PartialEq for Frac {
    /// Fractions compare by value, so `4/5 == 800/1000`.
    fn eq(&self, other: &Frac) -> (r: bool) {
        proof {
            lemma_u64_mul_fits_u128(self.num, other.den);
            lemma_u64_mul_fits_u128(other.num, self.den);
        }
        (self.num as u128) * (other.den as u128) == (other.num as u128) * (self.den as u128)
    }
}

impl vstd::std_specs::cmp::PartialEqSpecImpl for Frac {
    open spec fn obeys_eq_spec() -> bool {
        true
    }

    open spec fn eq_spec(&self, other: &Frac) -> bool {
        rat_eq(self@, other@)
    }
}

/// The product of two `u64` values fits in a `u128`.
pub proof fn lemma_u64_mul_fits_u128(a: u64, b: u64)
    ensures
        (a as int) * (b as int) <= u128::MAX as int,
{
    assert((a as int) * (b as int) <= u128::MAX as int) by (nonlinear_arith)
        requires
            a <= u64::MAX,
            b <= u64::MAX,
    ;
}

/// `rat_eq` is symmetric.
pub proof fn lemma_rat_eq_sym(a: Rat, b: Rat)
    requires
        rat_eq(a, b),
    ensures
        rat_eq(b, a),
{
}

/// `rat_eq` is transitive across a rational with a non-zero denominator.
pub proof fn lemma_rat_eq_trans(a: Rat, b: Rat, c: Rat)
    requires
        b.den != 0,
        rat_eq(a, b),
        rat_eq(b, c),
    ensures
        rat_eq(a, c),
{
    assert(a.num * c.den == c.num * a.den) by (nonlinear_arith)
        requires
            b.den != 0,
            a.num * b.den == b.num * a.den,
            b.num * c.den == c.num * b.den,
    ;
}

/// Equal values compare the same way against equal values.
pub proof fn lemma_rat_le_congr(a: Rat, a2: Rat, b: Rat, b2: Rat)
    requires
        rat_wf(a),
        rat_wf(a2),
        rat_wf(b),
        rat_wf(b2),
        rat_eq(a, a2),
        rat_eq(b, b2),
    ensures
        rat_le(a, b) == rat_le(a2, b2),
{
    assert((a.num * b.den <= b.num * a.den) == (a2.num * b2.den <= b2.num * a2.den))
        by (nonlinear_arith)
        requires
            a.den > 0,
            a2.den > 0,
            b.den > 0,
            b2.den > 0,
            a.num * a2.den == a2.num * a.den,
            b.num * b2.den == b2.num * b.den,
    ;
}

/// Reassociation of a four-factor product, pairing the first factor with the
/// third: `(x * y) * (z * w) == (x * z) * (y * w)`.
pub proof fn lemma_mul_exchange(x: int, y: int, z: int, w: int)
    ensures
        (x * y) * (z * w) == (x * z) * (y * w),
{
    vstd::arithmetic::mul::lemma_mul_is_associative(x, y, z * w);
    vstd::arithmetic::mul::lemma_mul_is_associative(y, z, w);
    vstd::arithmetic::mul::lemma_mul_is_commutative(y, z);
    vstd::arithmetic::mul::lemma_mul_is_associative(z, y, w);
    vstd::arithmetic::mul::lemma_mul_is_associative(x, z, y * w);
}

/// Reassociation of a four-factor product, pairing the first factor with the
/// fourth: `(x * y) * (z * w) == (x * w) * (y * z)`.
pub proof fn lemma_mul_exchange_outer(x: int, y: int, z: int, w: int)
    ensures
        (x * y) * (z * w) == (x * w) * (y * z),
{
    vstd::arithmetic::mul::lemma_mul_is_commutative(z, w);
    lemma_mul_exchange(x, y, w, z);
}

/// Subtraction respects value equality.
pub proof fn lemma_rat_sub_congr(a: Rat, a2: Rat, b: Rat, b2: Rat)
    requires
        rat_wf(a),
        rat_wf(a2),
        rat_wf(b),
        rat_wf(b2),
        rat_eq(a, a2),
        rat_eq(b, b2),
    ensures
        rat_eq(rat_sub(a, b), rat_sub(a2, b2)),
{
    vstd::arithmetic::mul::lemma_mul_is_distributive_sub_other_way(
        a2.den * b2.den,
        a.num * b.den,
        b.num * a.den,
    );
    vstd::arithmetic::mul::lemma_mul_is_distributive_sub_other_way(
        a.den * b.den,
        a2.num * b2.den,
        b2.num * a2.den,
    );
    lemma_mul_exchange(a.num, b.den, a2.den, b2.den);
    lemma_mul_exchange_outer(b.num, a.den, a2.den, b2.den);
    lemma_mul_exchange(a2.num, b2.den, a.den, b.den);
    lemma_mul_exchange_outer(b2.num, a2.den, a.den, b.den);
    vstd::arithmetic::mul::lemma_mul_is_commutative(b2.den, b.den);
    vstd::arithmetic::mul::lemma_mul_is_commutative(a2.den, a.den);
    assert((a.num * a2.den) * (b.den * b2.den) == (a2.num * a.den) * (b2.den * b.den));
    assert((b.num * b2.den) * (a.den * a2.den) == (b2.num * b.den) * (a2.den * a.den));
}

/// Division by a positive rational respects value equality.
pub proof fn lemma_rat_div_congr(a: Rat, a2: Rat, b: Rat, b2: Rat)
    requires
        rat_wf(a),
        rat_wf(a2),
        rat_wf(b),
        rat_wf(b2),
        b.num != 0,
        b2.num != 0,
        rat_eq(a, a2),
        rat_eq(b, b2),
    ensures
        rat_eq(rat_div(a, b), rat_div(a2, b2)),
{
    assert((a.num * b.den) * (a2.den * b2.num) == (a2.num * b2.den) * (a.den * b.num))
        by (nonlinear_arith)
        requires
            a.num * a2.den == a2.num * a.den,
            b.num * b2.den == b2.num * b.den,
            a.den > 0,
            a2.den > 0,
            b.den > 0,
            b2.den > 0,
    ;
}

/// Fractions over one common positive denominator order by their numerators.
pub proof fn lemma_same_den_le(a: Rat, b: Rat)
    requires
        a.den == b.den,
        a.den > 0,
    ensures
        rat_le(a, b) == (a.num <= b.num),
{
    assert((a.num * b.den <= b.num * a.den) == (a.num <= b.num)) by (nonlinear_arith)
        requires
            a.den == b.den,
            a.den > 0,
    ;
}

} // verus!
