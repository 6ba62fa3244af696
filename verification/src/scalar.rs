//! The exact scalar type and its mathematical model.
//!
//! A scalar is a fraction `n / d` of machine integers with a positive
//! denominator.  Its model is the pair of unbounded integers, and two
//! scalars denote the same value exactly when they cross-multiply equally.

use vstd::prelude::*;

verus! {

/// Mathematical value of a scalar: the fraction `n / d`.
pub struct SRat {
    pub n: int,
    pub d: int,
}

/// Magnitude accepted for the integer parts of the values an operation
/// consumes, chosen so that every intermediate product of one operation
/// fits the machine integers.
pub const LIM: i128 = 0x100_0000;

/// The same magnitude bound, as a mathematical integer.
pub open spec fn lim() -> int {
    LIM as int
}

/// `x` is small enough to enter an operation without risking overflow.
pub open spec fn ib(x: int) -> bool {
    -lim() <= x <= lim()
}

/// The fraction is well formed: its denominator is positive.
pub open spec fn srat_wf(a: SRat) -> bool {
    a.d > 0
}

/// Both parts of the fraction are within the operation entry bound.
pub open spec fn srat_bounded(a: SRat) -> bool {
    ib(a.n) && 0 < a.d && a.d <= lim()
}

/// The two fractions denote the same value: `a.n / a.d == b.n / b.d`,
/// stated by cross-multiplication.
pub open spec fn srat_eq(a: SRat, b: SRat) -> bool {
    a.n * b.d == b.n * a.d
}

/// Product of two fractions.
pub open spec fn srat_mul(a: SRat, b: SRat) -> SRat {
    SRat { n: a.n * b.n, d: a.d * b.d }
}

/// The fraction denoting one.
pub open spec fn srat_one() -> SRat {
    SRat { n: 1, d: 1 }
}

/// The fraction denoting zero.
pub open spec fn srat_zero() -> SRat {
    SRat { n: 0, d: 1 }
}

/// The fraction denotes zero; for a well-formed fraction this is exact,
/// not a tolerance test.
pub open spec fn srat_is_zero(a: SRat) -> bool {
    a.n == 0
}

/// The numerator leaves room for taking its magnitude.
pub open spec fn srat_in_range(a: SRat) -> bool {
    -(i128::MAX as int) <= a.n
}

/// The fraction with both parts divided by their greatest common
/// divisor.
pub open spec fn srat_reduced(a: SRat) -> SRat {
    let g = crate::gcd::gcd(crate::gcd::iabs(a.n), a.d);
    SRat { n: a.n / g, d: a.d / g }
}

/// An exact scalar: the fraction `n / d`.  A well-formed value keeps `d`
/// positive; constructors establish this and operations preserve it.
#[derive(Clone, Copy, Debug)]
pub struct Rat {
    pub n: i128,
    pub d: i128,
}

impl View for Rat {
    type V = SRat;

    open spec fn view(&self) -> SRat {
        SRat { n: self.n as int, d: self.d as int }
    }
}

impl Rat {
    /// The denominator is positive.
    pub open spec fn wf(self) -> bool {
        srat_wf(self@)
    }

    /// The scalar may enter an arithmetic operation.
    pub open spec fn bounded(self) -> bool {
        srat_bounded(self@)
    }

    /// The scalar zero.
    pub fn zero() -> (r: Rat)
        ensures
            r@ == srat_zero(),
            r.bounded(),
    {
        Rat { n: 0, d: 1 }
    }

    /// The scalar one.
    pub fn one() -> (r: Rat)
        ensures
            r@ == srat_one(),
            r.bounded(),
    {
        Rat { n: 1, d: 1 }
    }

    /// The whole number `n`.
    pub fn from_int(n: i128) -> (r: Rat)
        requires
            ib(n as int),
        ensures
            r@ == (SRat { n: n as int, d: 1 }),
            r.bounded(),
    {
        Rat { n, d: 1 }
    }

    /// The fraction `n / d`, brought to a positive denominator.
    /// Absent exactly when `d` is zero.
    pub fn new(n: i128, d: i128) -> (r: Option<Rat>)
        requires
            ib(n as int),
            ib(d as int),
        ensures
            r is Some <==> d != 0,
            r is Some ==> {
                let v = r->Some_0;
                &&& v.bounded()
                &&& srat_eq(v@, SRat { n: n as int, d: d as int })
            },
    {
        if d == 0 {
            None
        } else if d < 0 {
            proof {
                assert((-n as int) * (d as int) == (n as int) * (-d as int)) by (nonlinear_arith);
            }
            Some(Rat { n: -n, d: -d })
        } else {
            Some(Rat { n, d })
        }
    }

    /// Exact product of two scalars.
    pub fn times(&self, other: &Rat) -> (r: Rat)
        requires
            self.bounded(),
            other.bounded(),
        ensures
            r@ == srat_mul(self@, other@),
            r.wf(),
    {
        proof {
            lemma_ib_product(self.n as int, other.n as int);
            lemma_ib_product(self.d as int, other.d as int);
            assert((self.d as int) * (other.d as int) > 0) by (nonlinear_arith)
                requires self.d > 0 && other.d > 0;
        }
        Rat { n: self.n * other.n, d: self.d * other.d }
    }

    /// Exact negation.
    pub fn negate(&self) -> (r: Rat)
        requires
            self.bounded(),
        ensures
            r@ == (SRat { n: -self@.n, d: self@.d }),
            r.bounded(),
    {
        Rat { n: -self.n, d: self.d }
    }

    /// The reciprocal, absent exactly when the scalar denotes zero.
    pub fn recip(&self) -> (r: Option<Rat>)
        requires
            self.bounded(),
        ensures
            r is Some <==> !srat_is_zero(self@),
            r is Some ==> {
                let v = r->Some_0;
                &&& v.bounded()
                &&& srat_eq(srat_mul(self@, v@), srat_one())
            },
    {
        if self.n == 0 {
            None
        } else if self.n < 0 {
            proof {
                assert((self@.n * (-self@.d)) * 1 == 1 * (self@.d * (-self@.n)))
                    by (nonlinear_arith);
            }
            Some(Rat { n: -self.d, d: -self.n })
        } else {
            proof {
                assert((self@.n * self@.d) * 1 == 1 * (self@.d * self@.n)) by (nonlinear_arith);
            }
            Some(Rat { n: self.d, d: self.n })
        }
    }

    /// The two scalars denote the same value.
    pub fn same_value(&self, other: &Rat) -> (r: bool)
        requires
            self.bounded(),
            other.bounded(),
        ensures
            r == srat_eq(self@, other@),
    {
        proof {
            lemma_ib_product(self.n as int, other.d as int);
            lemma_ib_product(other.n as int, self.d as int);
        }
        self.n * other.d == other.n * self.d
    }

    /// The same value brought to lowest terms; absent exactly when even
    /// the reduced parts exceed the operation entry bound.  This is how
    /// a value grown by composition or inversion re-enters the bounded
    /// domain.
    pub fn reduce(&self) -> (r: Option<Rat>)
        requires
            self.wf(),
            srat_in_range(self@),
        ensures
            r is Some <==> srat_bounded(srat_reduced(self@)),
            r is Some ==> {
                let v = r->Some_0;
                &&& v@ == srat_reduced(self@)
                &&& srat_eq(v@, self@)
                &&& v.bounded()
            },
    {
        let an: u128 = if self.n < 0 { (-self.n) as u128 } else { self.n as u128 };
        let ad: u128 = self.d as u128;
        let g = crate::gcd::gcd_u128(an, ad);
        proof {
            crate::gcd::lemma_gcd_props(an as int, ad as int);
            assert(crate::gcd::iabs(self@.n) == an as int);
        }
        let qn = an / g;
        let qd = ad / g;
        proof {
            crate::gcd::lemma_exact_div(an as int, g as int);
            crate::gcd::lemma_signed_div(self@.n, g as int, qn as int);
            crate::gcd::lemma_exact_div(ad as int, g as int);
            assert(qd as int > 0) by (nonlinear_arith)
                requires (g as int) * (qd as int) == ad as int, ad as int > 0, g as int > 0;
            assert(self@.n == (g as int) * (self@.n / (g as int))) by (nonlinear_arith)
                requires
                    self@.n / (g as int) == (if self@.n < 0 { -(qn as int) } else { qn as int }),
                    (g as int) * (qn as int) == crate::gcd::iabs(self@.n),
                    crate::gcd::iabs(self@.n) == (if self@.n < 0 { -self@.n } else { self@.n }),
            ;
            assert((self@.n / (g as int)) * (ad as int) == self@.n * (qd as int)) by (nonlinear_arith)
                requires
                    self@.n == (g as int) * (self@.n / (g as int)),
                    ad as int == (g as int) * (qd as int),
            ;
        }
        let limu: u128 = LIM as u128;
        if qn <= limu && qd <= limu {
            Some(Rat { n: if self.n < 0 { -(qn as i128) } else { qn as i128 }, d: qd as i128 })
        } else {
            None
        }
    }

    /// The scalar denotes zero.
    pub fn is_zero(&self) -> (r: bool)
        requires
            self.wf(),
        ensures
            r == srat_is_zero(self@),
    {
        self.n == 0
    }
}

/// A product of two bounded integers stays far inside the machine range.
pub proof fn lemma_ib_product(x: int, y: int)
    by (nonlinear_arith)
    requires
        -lim() <= x <= lim(),
        -lim() <= y <= lim(),
    ensures
        -lim() * lim() <= x * y <= lim() * lim(),
{
}

/// Bound on a product from bounds on its factors.
pub proof fn lemma_mul_bound(x: int, y: int, bx: int, by: int)
    by (nonlinear_arith)
    requires
        -bx <= x <= bx,
        -by <= y <= by,
        0 <= bx,
        0 <= by,
    ensures
        -(bx * by) <= x * y <= bx * by,
{
}

/// A product of positive integers is positive.
pub proof fn lemma_mul_pos(x: int, y: int)
    by (nonlinear_arith)
    requires
        0 < x,
        0 < y,
    ensures
        0 < x * y,
{
}

} // verus!
