//! Exact rational scalars.
//!
//! A [`Scalar`] is a sign, a numerator and a positive denominator, each of
//! arbitrary size. Its view is the real number `± numerator / denominator`.
//! Fractions are not kept in lowest terms, so one number has many
//! representations; every operation is specified on the number alone and is
//! exact: no rounding, no overflow, no special values.

use vstd::prelude::*;
use crate::natural::Natural;

verus! {

/// The real number `num / den`, negated where `negative` holds.
pub open spec fn signed_ratio(negative: bool, num: nat, den: nat) -> real {
    if negative {
        -(num as real / den as real)
    } else {
        num as real / den as real
    }
}

/// The product of two naturals, taken as a real, is the product of the reals.
pub proof fn lemma_real_of_product(a: nat, b: nat)
    ensures
        (a * b) as real == a as real * b as real,
{
    let x = a as real;
    let y = b as real;
    assert((a * b) as real == x * y) by (nonlinear_arith)
        requires
            x == a as real,
            y == b as real,
    ;
}

/// The sign flips under negation.
pub proof fn lemma_ratio_neg(negative: bool, num: nat, den: nat)
    ensures
        signed_ratio(!negative, num, den) == -signed_ratio(negative, num, den),
{
}

/// A negative ratio carries the minus sign, and a positive one does not.
pub proof fn lemma_ratio_sign(negative: bool, num: nat, den: nat)
    requires
        den > 0,
    ensures
        signed_ratio(negative, num, den) < 0real ==> negative,
        signed_ratio(negative, num, den) > 0real ==> !negative,
{
    let n = num as real;
    let d = den as real;
    assert(n / d >= 0real) by (nonlinear_arith)
        requires
            n >= 0real,
            d > 0real,
    ;
}

/// A ratio is zero exactly when its numerator is.
pub proof fn lemma_ratio_zero(negative: bool, num: nat, den: nat)
    requires
        den > 0,
    ensures
        signed_ratio(negative, num, den) == 0real <==> num == 0,
{
    let n = num as real;
    let d = den as real;
    assert(n / d == 0real <==> n == 0real) by (nonlinear_arith)
        requires
            d > 0real,
    ;
}

/// Ratios multiply numerator by numerator and denominator by denominator.
pub proof fn lemma_ratio_mul(s1: bool, n1: nat, d1: nat, s2: bool, n2: nat, d2: nat)
    requires
        d1 > 0,
        d2 > 0,
    ensures
        d1 * d2 > 0,
        signed_ratio(s1 != s2, n1 * n2, d1 * d2) == signed_ratio(s1, n1, d1) * signed_ratio(
            s2,
            n2,
            d2,
        ),
{
    let a = n1 as real;
    let b = d1 as real;
    let c = n2 as real;
    let d = d2 as real;
    lemma_real_of_product(n1, n2);
    lemma_real_of_product(d1, d2);
    assert(d1 * d2 > 0) by (nonlinear_arith)
        requires
            d1 > 0,
            d2 > 0,
    ;
    assert((a * c) / (b * d) == (a / b) * (c / d)) by (nonlinear_arith)
        requires
            b > 0real,
            d > 0real,
    ;
    assert((-(a / b)) * (c / d) == -((a / b) * (c / d))) by (nonlinear_arith);
    assert((a / b) * (-(c / d)) == -((a / b) * (c / d))) by (nonlinear_arith);
    assert((-(a / b)) * (-(c / d)) == (a / b) * (c / d)) by (nonlinear_arith);
}

/// Multiplying numerator and denominator by one positive number leaves the
/// ratio unchanged.
pub proof fn lemma_ratio_expand(s: bool, num: nat, den: nat, k: nat)
    requires
        den > 0,
        k > 0,
    ensures
        den * k > 0,
        signed_ratio(s, num * k, den * k) == signed_ratio(s, num, den),
{
    let n = num as real;
    let d = den as real;
    let f = k as real;
    lemma_real_of_product(num, k);
    lemma_real_of_product(den, k);
    assert(den * k > 0) by (nonlinear_arith)
        requires
            den > 0,
            k > 0,
    ;
    assert((n * f) / (d * f) == n / d) by (nonlinear_arith)
        requires
            d > 0real,
            f > 0real,
    ;
}

/// Two ratios of one sign and one denominator add numerator to numerator.
pub proof fn lemma_ratio_add_common(s: bool, a: nat, b: nat, den: nat)
    requires
        den > 0,
    ensures
        signed_ratio(s, a + b, den) == signed_ratio(s, a, den) + signed_ratio(s, b, den),
{
    let x = a as real;
    let y = b as real;
    let d = den as real;
    assert((x + y) / d == x / d + y / d) by (nonlinear_arith)
        requires
            d > 0real,
    ;
}

/// Two ratios of opposite signs and one denominator subtract numerator from
/// numerator; the result takes the sign of the one that is not smaller.
pub proof fn lemma_ratio_sub_common(s: bool, a: nat, b: nat, den: nat)
    requires
        den > 0,
        a >= b,
    ensures
        signed_ratio(s, (a - b) as nat, den) == signed_ratio(s, a, den) + signed_ratio(
            !s,
            b,
            den,
        ),
{
    let x = a as real;
    let y = b as real;
    let d = den as real;
    assert((x - y) / d == x / d - y / d) by (nonlinear_arith)
        requires
            d > 0real,
    ;
}

/// The reciprocal of a non-zero ratio swaps numerator and denominator.
pub proof fn lemma_ratio_recip(s: bool, num: nat, den: nat)
    requires
        num > 0,
        den > 0,
    ensures
        signed_ratio(s, den, num) == 1real / signed_ratio(s, num, den),
{
    let n = num as real;
    let d = den as real;
    assert(d / n == 1real / (n / d)) by (nonlinear_arith)
        requires
            n > 0real,
            d > 0real,
    ;
    assert(-(d / n) == 1real / (-(n / d))) by (nonlinear_arith)
        requires
            n > 0real,
            d > 0real,
    ;
}

/// An exact rational number.
#[derive(Debug)]
pub struct Scalar {
    negative: bool,
    num: Natural,
    den: Natural,
}

impl View for Scalar {
    type V = real;

    closed spec fn view(&self) -> real {
        signed_ratio(self.negative, self.num@, self.den@)
    }
}

impl Scalar {
    #[verifier::type_invariant]
    spec fn well_formed(self) -> bool {
        self.den@ > 0
    }

    /// The sign flag of the representation.
    pub closed spec fn spec_negative(&self) -> bool {
        self.negative
    }

    /// The numerator of the representation.
    pub closed spec fn spec_numerator(&self) -> nat {
        self.num@
    }

    /// The denominator of the representation.
    pub closed spec fn spec_denominator(&self) -> nat {
        self.den@
    }

    /// The scalar `± num / den`, or `None` where `den` is zero.
    pub fn new(negative: bool, num: Natural, den: Natural) -> (r: Option<Scalar>)
        ensures
            r is None <==> den@ == 0,
            r matches Some(s) ==> {
                &&& s@ == signed_ratio(negative, num@, den@)
                &&& s.spec_negative() == negative
                &&& s.spec_numerator() == num@
                &&& s.spec_denominator() == den@
            },
    {
        if den.is_zero() {
            None
        } else {
            Some(Scalar { negative, num, den })
        }
    }

    /// The number zero.
    pub fn zero() -> (r: Scalar)
        ensures
            r@ == 0real,
    {
        let num = Natural::zero();
        let den = Natural::from_u64(1);
        proof {
            lemma_ratio_zero(false, num@, den@);
        }
        Scalar { negative: false, num, den }
    }

    /// The number held by a signed machine word.
    pub fn from_i64(x: i64) -> (r: Scalar)
        ensures
            r@ == x as real,
    {
        let negative = x < 0;
        let magnitude: u64 = if x >= 0 {
            x as u64
        } else {
            (-(x + 1)) as u64 + 1
        };
        let num = Natural::from_u64(magnitude);
        let den = Natural::from_u64(1);
        proof {
            let m = magnitude as real;
            assert(m / 1real == m) by (nonlinear_arith);
        }
        Scalar { negative, num, den }
    }

    /// The number `num / den`, or `None` where `den` is zero.
    pub fn from_ratio(num: i64, den: i64) -> (r: Option<Scalar>)
        ensures
            r is None <==> den == 0,
            r matches Some(s) ==> s@ == num as real / den as real,
    {
        if den == 0 {
            return None;
        }
        let n = Scalar::from_i64(num);
        let d = Scalar::from_i64(den);
        n.div(&d)
    }

    /// Whether the representation carries a minus sign. A negative number
    /// carries one and a positive number none; zero may come either way.
    pub fn is_negative(&self) -> (r: bool)
        ensures
            r == self.spec_negative(),
            self@ < 0real ==> r,
            self@ > 0real ==> !r,
    {
        proof {
            use_type_invariant(self);
            lemma_ratio_sign(self.negative, self.num@, self.den@);
        }
        self.negative
    }

    /// The numerator of the representation.
    pub fn numerator(&self) -> (r: &Natural)
        ensures
            r@ == self.spec_numerator(),
            self@ == signed_ratio(self.spec_negative(), r@, self.spec_denominator()),
    {
        &self.num
    }

    /// The denominator of the representation: never zero.
    pub fn denominator(&self) -> (r: &Natural)
        ensures
            r@ == self.spec_denominator(),
            r@ > 0,
            self@ == signed_ratio(self.spec_negative(), self.spec_numerator(), r@),
    {
        proof {
            use_type_invariant(self);
        }
        &self.den
    }

    /// Whether this number is zero.
    pub fn is_zero(&self) -> (r: bool)
        ensures
            r == (self@ == 0real),
    {
        proof {
            use_type_invariant(self);
            lemma_ratio_zero(self.negative, self.num@, self.den@);
        }
        self.num.is_zero()
    }

    /// The negation `-self`.
    pub fn neg(&self) -> (r: Scalar)
        ensures
            r@ == -self@,
    {
        proof {
            use_type_invariant(self);
            lemma_ratio_neg(self.negative, self.num@, self.den@);
        }
        Scalar { negative: !self.negative, num: self.num.clone(), den: self.den.clone() }
    }

    /// The sum `self + other`.
    pub fn add(&self, other: &Scalar) -> (r: Scalar)
        ensures
            r@ == self@ + other@,
    {
        proof {
            use_type_invariant(self);
            use_type_invariant(other);
        }
        // Bring both to one denominator: the shared one, or the product.
        let (left, right, den) = if self.den.eq(&other.den) {
            (self.num.clone(), other.num.clone(), self.den.clone())
        } else {
            proof {
                lemma_ratio_expand(self.negative, self.num@, self.den@, other.den@);
                lemma_ratio_expand(other.negative, other.num@, other.den@, self.den@);
                assert(other.den@ * self.den@ == self.den@ * other.den@) by (nonlinear_arith);
            }
            (self.num.mul(&other.den), other.num.mul(&self.den), self.den.mul(&other.den))
        };
        assert(den@ > 0);
        assert(self@ == signed_ratio(self.negative, left@, den@));
        assert(other@ == signed_ratio(other.negative, right@, den@));
        if self.negative == other.negative {
            proof {
                lemma_ratio_add_common(self.negative, left@, right@, den@);
            }
            Scalar { negative: self.negative, num: left.add(&right), den }
        } else {
            let (diff, smaller) = left.abs_diff(&right);
            if smaller {
                proof {
                    lemma_ratio_sub_common(other.negative, right@, left@, den@);
                }
                Scalar { negative: other.negative, num: diff, den }
            } else {
                proof {
                    lemma_ratio_sub_common(self.negative, left@, right@, den@);
                }
                Scalar { negative: self.negative, num: diff, den }
            }
        }
    }

    /// The difference `self - other`.
    pub fn sub(&self, other: &Scalar) -> (r: Scalar)
        ensures
            r@ == self@ - other@,
    {
        let minus = other.neg();
        self.add(&minus)
    }

    /// The product `self * other`.
    pub fn mul(&self, other: &Scalar) -> (r: Scalar)
        ensures
            r@ == self@ * other@,
    {
        proof {
            use_type_invariant(self);
            use_type_invariant(other);
            lemma_ratio_mul(
                self.negative,
                self.num@,
                self.den@,
                other.negative,
                other.num@,
                other.den@,
            );
        }
        Scalar {
            negative: self.negative != other.negative,
            num: self.num.mul(&other.num),
            den: self.den.mul(&other.den),
        }
    }

    /// The reciprocal `1 / self` of a scalar that is not zero.
    pub(crate) fn inverse(&self) -> (r: Scalar)
        requires
            self@ != 0real,
        ensures
            r@ == 1real / self@,
    {
        proof {
            use_type_invariant(self);
            lemma_ratio_zero(self.negative, self.num@, self.den@);
            lemma_ratio_recip(self.negative, self.num@, self.den@);
        }
        Scalar { negative: self.negative, num: self.den.clone(), den: self.num.clone() }
    }

    /// The reciprocal `1 / self`, or `None` where `self` is zero.
    pub fn recip(&self) -> (r: Option<Scalar>)
        ensures
            r is None <==> self@ == 0real,
            r matches Some(s) ==> s@ == 1real / self@,
    {
        if self.is_zero() {
            None
        } else {
            Some(self.inverse())
        }
    }

    /// The quotient `self / other`, or `None` where `other` is zero.
    pub fn div(&self, other: &Scalar) -> (r: Option<Scalar>)
        ensures
            r is None <==> other@ == 0real,
            r matches Some(s) ==> s@ == self@ / other@,
    {
        match other.recip() {
            None => None,
            Some(inverse) => {
                let q = self.mul(&inverse);
                proof {
                    let a = self@;
                    let b = other@;
                    assert(a * (1real / b) == a / b) by (nonlinear_arith)
                        requires
                            b != 0real,
                    ;
                }
                Some(q)
            },
        }
    }

    /// Whether the two scalars denote the same number.
    pub fn eq(&self, other: &Scalar) -> (r: bool)
        ensures
            r == (self@ == other@),
    {
        self.sub(other).is_zero()
    }
}

impl Clone for Scalar {
    fn clone(&self) -> (r: Scalar)
        ensures
            r@ == self@,
    {
        proof {
            use_type_invariant(self);
        }
        Scalar { negative: self.negative, num: self.num.clone(), den: self.den.clone() }
    }
}

} // verus!
