//! Arbitrary-precision natural numbers.
//!
//! A [`Natural`] is a little-endian sequence of 32-bit limbs. Its view is the
//! natural number that the limbs denote in radix 2^32. Leading zero limbs are
//! allowed, so one number has many representations; every operation is
//! specified on the number, never on the limbs.

use vstd::prelude::*;

verus! {

/// The radix of one limb, 2^32, raised to the power `k`.
pub open spec fn radix_pow(k: nat) -> nat
    decreases k,
{
    if k == 0 {
        1
    } else {
        0x1_0000_0000 * radix_pow((k - 1) as nat)
    }
}

/// The limb at position `i`, where every position past the end holds zero.
pub open spec fn limb_at(s: Seq<u32>, i: int) -> nat {
    if 0 <= i < s.len() {
        s[i] as nat
    } else {
        0
    }
}

/// The number denoted by the `k` least significant limbs of `s`.
pub open spec fn prefix_value(s: Seq<u32>, k: nat) -> nat
    decreases k,
{
    if k == 0 {
        0
    } else {
        prefix_value(s, (k - 1) as nat) + limb_at(s, k - 1) * radix_pow((k - 1) as nat)
    }
}

/// The number denoted by all the limbs of `s`, least significant first.
pub open spec fn limbs_value(s: Seq<u32>) -> nat {
    prefix_value(s, s.len())
}

/// Every power of the radix is positive.
pub proof fn lemma_radix_pow_positive(k: nat)
    ensures
        radix_pow(k) > 0,
    decreases k,
{
    if k > 0 {
        lemma_radix_pow_positive((k - 1) as nat);
    }
}

/// Two sequences that agree on their first `k` positions have the same
/// `k`-limb prefix value.
pub proof fn lemma_prefix_agree(s: Seq<u32>, t: Seq<u32>, k: nat)
    requires
        forall|j: int| 0 <= j < k ==> limb_at(s, j) == limb_at(t, j),
    ensures
        prefix_value(s, k) == prefix_value(t, k),
    decreases k,
{
    if k > 0 {
        lemma_prefix_agree(s, t, (k - 1) as nat);
    }
}

/// Positions past the end add nothing.
pub proof fn lemma_prefix_beyond(s: Seq<u32>, k: nat)
    requires
        k >= s.len(),
    ensures
        prefix_value(s, k) == limbs_value(s),
    decreases k,
{
    if k > s.len() {
        lemma_prefix_beyond(s, (k - 1) as nat);
        assert(limb_at(s, k - 1) == 0);
        assert(limb_at(s, k - 1) * radix_pow((k - 1) as nat) == 0) by (nonlinear_arith)
            requires
                limb_at(s, k - 1) == 0,
        ;
    }
}

/// Appending a limb adds that limb at the weight of its position.
pub proof fn lemma_push_value(s: Seq<u32>, x: u32)
    ensures
        limbs_value(s.push(x)) == limbs_value(s) + x * radix_pow(s.len()),
{
    let t = s.push(x);
    assert forall|j: int| 0 <= j < s.len() implies limb_at(t, j) == limb_at(s, j) by {}
    lemma_prefix_agree(t, s, s.len());
    assert(limb_at(t, s.len() as int) == x);
}

/// A `k`-limb prefix denotes a number below the `k`-th power of the radix.
pub proof fn lemma_prefix_bound(s: Seq<u32>, k: nat)
    ensures
        prefix_value(s, k) < radix_pow(k),
    decreases k,
{
    if k > 0 {
        let j = (k - 1) as nat;
        lemma_prefix_bound(s, j);
        let l = limb_at(s, j as int);
        let p = radix_pow(j);
        assert(l <= 0xffff_ffff);
        assert(prefix_value(s, j) + l * p < 0x1_0000_0000 * p) by (nonlinear_arith)
            requires
                prefix_value(s, j) < p,
                l <= 0xffff_ffff,
        ;
    }
}

/// A prefix denotes zero exactly when all of its limbs are zero.
pub proof fn lemma_prefix_zero(s: Seq<u32>, k: nat)
    ensures
        prefix_value(s, k) == 0 <==> forall|j: int| 0 <= j < k ==> limb_at(s, j) == 0,
    decreases k,
{
    if k > 0 {
        let j = (k - 1) as nat;
        lemma_prefix_zero(s, j);
        lemma_radix_pow_positive(j);
        let l = limb_at(s, j as int);
        let p = radix_pow(j);
        assert(l * p == 0 <==> l == 0) by (nonlinear_arith)
            requires
                p > 0,
        ;
        if prefix_value(s, k) == 0 {
            assert(l == 0);
            assert forall|i: int| 0 <= i < k implies limb_at(s, i) == 0 by {
                if i < j {
                } else {
                    assert(i == j);
                }
            }
        }
    }
}

/// The number denoted by the limbs of `s` from position `i` upwards, with the
/// limb at position `i` at weight one.
pub open spec fn suffix_value(s: Seq<u32>, i: nat) -> nat
    decreases s.len() - i,
{
    if i >= s.len() {
        0
    } else {
        s[i as int] as nat + 0x1_0000_0000 * suffix_value(s, i + 1)
    }
}

/// A number splits at any position into its low limbs and its high limbs.
pub proof fn lemma_split_value(s: Seq<u32>, i: nat)
    requires
        i <= s.len(),
    ensures
        limbs_value(s) == prefix_value(s, i) + radix_pow(i) * suffix_value(s, i),
    decreases s.len() - i,
{
    let p = radix_pow(i);
    if i == s.len() {
        assert(p * suffix_value(s, i) == 0) by (nonlinear_arith)
            requires
                suffix_value(s, i) == 0,
        ;
    } else {
        lemma_split_value(s, i + 1);
        let l = s[i as int] as nat;
        let h = suffix_value(s, i + 1);
        assert(limb_at(s, i as int) == l);
        assert(radix_pow(i + 1) == 0x1_0000_0000 * p);
        assert(l * p + (0x1_0000_0000 * p) * h == p * (l + 0x1_0000_0000 * h))
            by (nonlinear_arith);
    }
}

/// Dropping a zero limb from the top leaves the number unchanged.
pub proof fn lemma_drop_top_zero(s: Seq<u32>)
    requires
        s.len() > 0,
        s.last() == 0,
    ensures
        limbs_value(s.drop_last()) == limbs_value(s),
{
    let t = s.drop_last();
    lemma_push_value(t, 0u32);
    assert(t.push(0u32) =~= s);
    assert(0u32 * radix_pow(t.len()) == 0) by (nonlinear_arith);
}

/// Putting a zero limb below the others multiplies the number by the radix.
pub proof fn lemma_shift_value(s: Seq<u32>, k: nat)
    requires
        k <= s.len(),
    ensures
        prefix_value(seq![0u32] + s, k + 1) == 0x1_0000_0000 * prefix_value(s, k),
    decreases k,
{
    let t = seq![0u32] + s;
    if k == 0 {
        assert(limb_at(t, 0) == 0);
        assert(prefix_value(t, 0) == 0);
        assert(limb_at(t, 0) * radix_pow(0) == 0) by (nonlinear_arith)
            requires
                limb_at(t, 0) == 0,
        ;
    } else {
        let j = (k - 1) as nat;
        lemma_shift_value(s, j);
        let l = limb_at(s, j as int);
        let p = radix_pow(j);
        assert(limb_at(t, k as int) == l);
        assert(radix_pow(k) == 0x1_0000_0000 * p);
        let q = prefix_value(s, j);
        assert(0x1_0000_0000 * q + l * (0x1_0000_0000 * p) == 0x1_0000_0000 * (q + l * p))
            by (nonlinear_arith);
    }
}

/// An arbitrary-precision natural number.
#[derive(Debug)]
pub struct Natural {
    limbs: Vec<u32>,
}

impl View for Natural {
    type V = nat;

    closed spec fn view(&self) -> nat {
        limbs_value(self.limbs@)
    }
}

impl Natural {
    /// The limbs of this number, least significant first.
    pub closed spec fn spec_limbs(&self) -> Seq<u32> {
        self.limbs@
    }

    /// The number zero.
    pub fn zero() -> (r: Natural)
        ensures
            r@ == 0,
    {
        Natural { limbs: Vec::new() }
    }

    /// The number held by a machine word.
    pub fn from_u64(x: u64) -> (r: Natural)
        ensures
            r@ == x,
    {
        let lo: u32 = (x % 0x1_0000_0000) as u32;
        let hi: u32 = (x / 0x1_0000_0000) as u32;
        let mut limbs: Vec<u32> = Vec::new();
        limbs.push(lo);
        limbs.push(hi);
        proof {
            let s0 = Seq::<u32>::empty();
            lemma_push_value(s0, lo);
            lemma_push_value(s0.push(lo), hi);
            assert(limbs@ =~= s0.push(lo).push(hi));
            assert(radix_pow(1) == 0x1_0000_0000) by {
                reveal_with_fuel(radix_pow, 2);
            }
            assert(radix_pow(0) == 1);
            assert(limbs_value(s0) == 0);
            assert(s0.len() == 0 && s0.push(lo).len() == 1);
            assert(lo * radix_pow(0) == lo) by (nonlinear_arith)
                requires
                    radix_pow(0) == 1,
            ;
            assert(hi * radix_pow(1) == hi * 0x1_0000_0000) by (nonlinear_arith)
                requires
                    radix_pow(1) == 0x1_0000_0000,
            ;
        }
        Natural::from_trimmed(limbs)
    }

    /// The number denoted by `limbs`, least significant first.
    pub fn from_limbs(limbs: Vec<u32>) -> (r: Natural)
        ensures
            r@ == limbs_value(limbs@),
            r.spec_limbs() == limbs@,
    {
        Natural { limbs }
    }

    /// A copy of the limbs, least significant first.
    pub fn to_limbs(&self) -> (r: Vec<u32>)
        ensures
            r@ == self.spec_limbs(),
            limbs_value(r@) == self@,
    {
        let r = self.limbs.clone();
        assert(r@ =~= self.limbs@);
        r
    }

    /// Whether this number is zero.
    pub fn is_zero(&self) -> (r: bool)
        ensures
            r == (self@ == 0),
    {
        let n = self.limbs.len();
        let mut i: usize = 0;
        while i < n
            invariant
                i <= n,
                n == self.limbs@.len(),
                forall|j: int| 0 <= j < i ==> limb_at(self.limbs@, j) == 0,
            decreases n - i,
        {
            if self.limbs[i] != 0 {
                proof {
                    lemma_prefix_zero(self.limbs@, n as nat);
                    assert(limb_at(self.limbs@, i as int) != 0);
                }
                return false;
            }
            i = i + 1;
        }
        proof {
            lemma_prefix_zero(self.limbs@, n as nat);
        }
        true
    }
}

impl Natural {
    /// The limb at position `i`, zero past the end.
    fn limb(&self, i: usize) -> (r: u32)
        ensures
            r == limb_at(self.limbs@, i as int),
    {
        if i < self.limbs.len() {
            self.limbs[i]
        } else {
            0
        }
    }

    /// Wraps `limbs` after removing the zero limbs at the top.
    fn from_trimmed(limbs: Vec<u32>) -> (r: Natural)
        ensures
            r@ == limbs_value(limbs@),
    {
        let ghost given = limbs@;
        let mut limbs = limbs;
        while limbs.len() > 0 && limbs[limbs.len() - 1] == 0
            invariant
                limbs_value(limbs@) == limbs_value(given),
            decreases limbs.len(),
        {
            proof {
                lemma_drop_top_zero(limbs@);
            }
            limbs.pop();
        }
        Natural { limbs }
    }

    /// The sum of two numbers.
    pub fn add(&self, other: &Natural) -> (r: Natural)
        ensures
            r@ == self@ + other@,
    {
        let n = if self.limbs.len() >= other.limbs.len() {
            self.limbs.len()
        } else {
            other.limbs.len()
        };
        let mut out: Vec<u32> = Vec::new();
        let mut carry: u64 = 0;
        let mut i: usize = 0;
        while i < n
            invariant
                i <= n,
                out@.len() == i,
                carry <= 1,
                limbs_value(out@) + carry * radix_pow(i as nat) == prefix_value(
                    self.limbs@,
                    i as nat,
                ) + prefix_value(other.limbs@, i as nat),
            decreases n - i,
        {
            let x: u64 = self.limb(i) as u64;
            let y: u64 = other.limb(i) as u64;
            let t: u64 = x + y + carry;
            let lo: u32 = (t % 0x1_0000_0000) as u32;
            let hi: u64 = t / 0x1_0000_0000;
            proof {
                let p = radix_pow(i as nat);
                lemma_push_value(out@, lo);
                assert(radix_pow((i + 1) as nat) == 0x1_0000_0000 * p);
                assert(lo * p + hi * (0x1_0000_0000 * p) == x * p + y * p + carry * p)
                    by (nonlinear_arith)
                    requires
                        x + y + carry == hi * 0x1_0000_0000 + lo,
                ;
            }
            out.push(lo);
            carry = hi;
            i = i + 1;
        }
        proof {
            lemma_prefix_beyond(self.limbs@, n as nat);
            lemma_prefix_beyond(other.limbs@, n as nat);
        }
        if carry != 0 {
            let top: u32 = carry as u32;
            proof {
                lemma_push_value(out@, top);
            }
            out.push(top);
        } else {
            assert(carry * radix_pow(n as nat) == 0) by (nonlinear_arith)
                requires
                    carry == 0,
            ;
        }
        Natural { limbs: out }
    }

    /// The limbs of `self - other` modulo the radix to the power of the
    /// longer length, and whether the subtraction borrowed from above.
    fn sub_limbs(&self, other: &Natural) -> (r: (Vec<u32>, bool))
        ensures
            r.1 == (self@ < other@),
            !r.1 ==> limbs_value(r.0@) + other@ == self@,
    {
        let n = if self.limbs.len() >= other.limbs.len() {
            self.limbs.len()
        } else {
            other.limbs.len()
        };
        let mut out: Vec<u32> = Vec::new();
        let mut borrow: u64 = 0;
        let mut i: usize = 0;
        while i < n
            invariant
                i <= n,
                out@.len() == i,
                borrow <= 1,
                limbs_value(out@) + prefix_value(other.limbs@, i as nat) == prefix_value(
                    self.limbs@,
                    i as nat,
                ) + borrow * radix_pow(i as nat),
            decreases n - i,
        {
            let x: u64 = self.limb(i) as u64;
            let y: u64 = other.limb(i) as u64 + borrow;
            let d: u64 = if x >= y {
                x - y
            } else {
                x + 0x1_0000_0000 - y
            };
            let next: u64 = if x >= y {
                0
            } else {
                1
            };
            let lo: u32 = d as u32;
            proof {
                let p = radix_pow(i as nat);
                let b = limb_at(other.limbs@, i as int);
                lemma_push_value(out@, lo);
                assert(radix_pow((i + 1) as nat) == 0x1_0000_0000 * p);
                assert(lo * p + b * p + borrow * p == x * p + next * (0x1_0000_0000 * p))
                    by (nonlinear_arith)
                    requires
                        lo + b + borrow == x + next * 0x1_0000_0000,
                ;
            }
            out.push(lo);
            borrow = next;
            i = i + 1;
        }
        proof {
            lemma_prefix_beyond(self.limbs@, n as nat);
            lemma_prefix_beyond(other.limbs@, n as nat);
            lemma_prefix_bound(out@, n as nat);
            lemma_prefix_bound(self.limbs@, n as nat);
            let p = radix_pow(n as nat);
            assert(borrow * p == if borrow == 1 {
                p
            } else {
                0
            }) by (nonlinear_arith)
                requires
                    borrow <= 1,
            ;
        }
        (out, borrow != 0)
    }

    /// Whether `self` is less than `other`.
    pub fn lt(&self, other: &Natural) -> (r: bool)
        ensures
            r == (self@ < other@),
    {
        self.sub_limbs(other).1
    }

    /// Whether the two numbers are equal.
    pub fn eq(&self, other: &Natural) -> (r: bool)
        ensures
            r == (self@ == other@),
    {
        !self.lt(other) && !other.lt(self)
    }

    /// The absolute difference of the two numbers, and whether `self` is the
    /// smaller one.
    pub fn abs_diff(&self, other: &Natural) -> (r: (Natural, bool))
        ensures
            r.1 == (self@ < other@),
            r.1 ==> r.0@ == other@ - self@,
            !r.1 ==> r.0@ == self@ - other@,
    {
        let (limbs, borrowed) = self.sub_limbs(other);
        if borrowed {
            let (swapped, _) = other.sub_limbs(self);
            (Natural::from_trimmed(swapped), true)
        } else {
            (Natural::from_trimmed(limbs), false)
        }
    }

    /// The product of this number and one limb.
    fn mul_limb(&self, m: u32) -> (r: Natural)
        ensures
            r@ == self@ * m,
    {
        let n = self.limbs.len();
        let mut out: Vec<u32> = Vec::new();
        let mut carry: u64 = 0;
        let mut i: usize = 0;
        proof {
            assert(prefix_value(self.limbs@, 0) * m == 0) by (nonlinear_arith)
                requires
                    prefix_value(self.limbs@, 0) == 0,
            ;
        }
        while i < n
            invariant
                i <= n,
                n == self.limbs@.len(),
                out@.len() == i,
                carry < 0x1_0000_0000,
                limbs_value(out@) + carry * radix_pow(i as nat) == prefix_value(
                    self.limbs@,
                    i as nat,
                ) * m,
            decreases n - i,
        {
            let x: u64 = self.limbs[i] as u64;
            let mm: u64 = m as u64;
            assert(x * mm + carry <= 0xffff_ffff_ffff_ffff) by (nonlinear_arith)
                requires
                    x <= 0xffff_ffff,
                    mm <= 0xffff_ffff,
                    carry <= 0xffff_ffff,
            ;
            let t: u64 = x * mm + carry;
            let lo: u32 = (t % 0x1_0000_0000) as u32;
            let hi: u64 = t / 0x1_0000_0000;
            proof {
                let p = radix_pow(i as nat);
                let q = prefix_value(self.limbs@, i as nat);
                lemma_push_value(out@, lo);
                assert(limb_at(self.limbs@, i as int) == x);
                assert(radix_pow((i + 1) as nat) == 0x1_0000_0000 * p);
                assert(lo * p + hi * (0x1_0000_0000 * p) == (x * p) * m + carry * p)
                    by (nonlinear_arith)
                    requires
                        x * mm + carry == hi * 0x1_0000_0000 + lo,
                        mm == m,
                ;
                assert((q + x * p) * m == q * m + (x * p) * m) by (nonlinear_arith);
            }
            out.push(lo);
            carry = hi;
            i = i + 1;
        }
        let top: u32 = carry as u32;
        proof {
            lemma_push_value(out@, top);
        }
        out.push(top);
        Natural::from_trimmed(out)
    }

    /// The product of this number and the radix.
    fn shift_limb(&self) -> (r: Natural)
        ensures
            r@ == 0x1_0000_0000 * self@,
    {
        let n = self.limbs.len();
        let mut out: Vec<u32> = Vec::new();
        out.push(0);
        let mut i: usize = 0;
        while i < n
            invariant
                i <= n,
                n == self.limbs@.len(),
                out@ == seq![0u32] + self.limbs@.take(i as int),
            decreases n - i,
        {
            out.push(self.limbs[i]);
            assert(self.limbs@.take(i + 1) == self.limbs@.take(i as int).push(self.limbs@[i as int]));
            assert(out@ =~= seq![0u32] + self.limbs@.take(i + 1));
            i = i + 1;
        }
        proof {
            assert(self.limbs@.take(n as int) =~= self.limbs@);
            lemma_shift_value(self.limbs@, n as nat);
        }
        Natural { limbs: out }
    }

    /// The product of two numbers.
    pub fn mul(&self, other: &Natural) -> (r: Natural)
        ensures
            r@ == self@ * other@,
    {
        let n = self.limbs.len();
        let mut acc = Natural::zero();
        let mut i: usize = n;
        proof {
            assert(suffix_value(self.limbs@, n as nat) * other@ == 0) by (nonlinear_arith)
                requires
                    suffix_value(self.limbs@, n as nat) == 0,
            ;
        }
        while i > 0
            invariant
                i <= n,
                n == self.limbs@.len(),
                acc@ == suffix_value(self.limbs@, i as nat) * other@,
            decreases i,
        {
            i = i - 1;
            let m = self.limbs[i];
            let part = other.mul_limb(m);
            let shifted = acc.shift_limb();
            proof {
                let h = suffix_value(self.limbs@, (i + 1) as nat);
                let v = other@;
                assert(0x1_0000_0000 * (h * v) + v * m == (m + 0x1_0000_0000 * h) * v)
                    by (nonlinear_arith);
            }
            acc = shifted.add(&part);
        }
        proof {
            lemma_split_value(self.limbs@, 0);
            assert(radix_pow(0) * suffix_value(self.limbs@, 0) == suffix_value(self.limbs@, 0))
                by (nonlinear_arith)
                requires
                    radix_pow(0) == 1,
            ;
        }
        acc
    }
}

impl Clone for Natural {
    fn clone(&self) -> (r: Natural)
        ensures
            r@ == self@,
    {
        let limbs = self.limbs.clone();
        assert(limbs@ =~= self.limbs@);
        Natural { limbs }
    }
}

} // verus!
