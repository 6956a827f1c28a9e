//! Exact fractions of non-negative integers: the form in which rates and
//! remaining times are held.

use vstd::prelude::*;

verus! {

/// The fraction `num / den`. A well-formed ratio has a positive denominator;
/// it is not kept in lowest terms.
#[derive(Clone, Copy, Debug, PartialEq, Eq, Structural)]
pub struct Ratio {
    pub num: u128,
    pub den: u128,
}

impl Ratio {
    /// The denominator is positive.
    pub open spec fn wf(self) -> bool {
        self.den > 0
    }

    /// The number that the fraction denotes.
    pub open spec fn value(self) -> real {
        self.num as real / self.den as real
    }

    /// The fraction is `0`.
    pub open spec fn is_zero(self) -> bool {
        self.num == 0
    }

    /// The fraction is positive.
    pub open spec fn is_positive(self) -> bool {
        self.num > 0
    }

    /// The fraction is at most the whole number `k`.
    pub open spec fn at_most(self, k: nat) -> bool {
        self.num <= k * self.den
    }

    /// The fraction is strictly greater than `factor` times `other`.
    pub open spec fn exceeds_multiple(self, factor: nat, other: Ratio) -> bool {
        self.num * other.den > factor * other.num * self.den
    }

    /// Both fractions denote the same number.
    pub open spec fn same_value(self, other: Ratio) -> bool {
        self.num * other.den == other.num * self.den
    }

    /// The fraction `0 / 1`.
    pub fn zero() -> (r: Ratio)
        ensures
            r == (Ratio { num: 0, den: 1 }),
            r.wf(),
            r.is_zero(),
    {
        Ratio { num: 0, den: 1 }
    }
}

/// A quotient by a positive number stands to a bound as the dividend stands
/// to the bound times the divisor.
pub proof fn lemma_quotient(a: real, b: real, k: real)
    requires
        b > 0real,
    ensures
        (a / b) * b == a,
        (a / b <= k) <==> (a <= k * b),
        (a / b < k) <==> (a < k * b),
        (a / b > k) <==> (a > k * b),
        (a / b == k) <==> (a == k * b),
{
    assert((a / b) * b == a) by (nonlinear_arith)
        requires
            b > 0real,
    ;
    assert((a / b <= k) <==> (a <= k * b)) by (nonlinear_arith)
        requires
            b > 0real,
            (a / b) * b == a,
    ;
    assert((a / b < k) <==> (a < k * b)) by (nonlinear_arith)
        requires
            b > 0real,
            (a / b) * b == a,
    ;
    assert((a / b > k) <==> (a > k * b)) by (nonlinear_arith)
        requires
            b > 0real,
            (a / b) * b == a,
    ;
    assert((a / b == k) <==> (a == k * b)) by (nonlinear_arith)
        requires
            b > 0real,
            (a / b) * b == a,
    ;
}

/// What the comparisons of fractions mean for the numbers they denote.
pub proof fn lemma_ratio_comparisons(a: Ratio, k: nat, b: Ratio)
    requires
        a.wf(),
        b.wf(),
    ensures
        a.value() >= 0real,
        a.is_zero() <==> a.value() == 0real,
        a.is_positive() <==> a.value() > 0real,
        a.at_most(k) <==> a.value() <= k as real,
        a.exceeds_multiple(k, b) <==> a.value() > (k as real) * b.value(),
        a.same_value(b) <==> a.value() == b.value(),
{
    let an = a.num as real;
    let ad = a.den as real;
    let bn = b.num as real;
    let bd = b.den as real;
    let kr = k as real;
    lemma_quotient(an, ad, 0real);
    lemma_quotient(an, ad, kr);
    assert((k * a.den) as real == kr * ad) by (nonlinear_arith)
        requires
            kr == k as real,
            ad == a.den as real,
    ;
    lemma_quotient(bn, bd, 0real);
    // a/ad > k * (bn/bd)  <==>  an * bd > k * bn * ad
    assert(a.value() * ad == an);
    assert(b.value() * bd == bn);
    assert((a.value() > kr * b.value()) <==> (an * bd > kr * bn * ad)) by (nonlinear_arith)
        requires
            ad > 0real,
            bd > 0real,
            a.value() * ad == an,
            b.value() * bd == bn,
    ;
    assert((a.value() == b.value()) <==> (an * bd == bn * ad)) by (nonlinear_arith)
        requires
            ad > 0real,
            bd > 0real,
            a.value() * ad == an,
            b.value() * bd == bn,
    ;
    assert((a.num * b.den) as real == an * bd) by (nonlinear_arith)
        requires
            an == a.num as real,
            bd == b.den as real,
    ;
    assert((k * b.num * a.den) as real == kr * bn * ad) by (nonlinear_arith)
        requires
            kr == k as real,
            bn == b.num as real,
            ad == a.den as real,
    ;
    assert((b.num * a.den) as real == bn * ad) by (nonlinear_arith)
        requires
            bn == b.num as real,
            ad == a.den as real,
    ;
}

} // verus!
