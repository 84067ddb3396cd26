//! Exact arithmetic on naturals too large for machine words, held as base
//! 2^64 limbs, little end first. Just enough for the pitch quantizer:
//! building products of word-sized factors and powers of two, and comparing.

use vstd::prelude::*;
use vstd::arithmetic::power2::pow2;
use vstd::arithmetic::power2::lemma_pow2_adds;
use vstd::arithmetic::power2::lemma2_to64;
use vstd::arithmetic::power2::lemma2_to64_rest;

verus! {

broadcast use {
    vstd::arithmetic::mul::lemma_mul_is_commutative,
    vstd::arithmetic::mul::lemma_mul_by_zero_is_zero,
};

/// The natural number a limb sequence stands for.
pub open spec fn big_val(s: Seq<u64>) -> nat
    decreases s.len(),
{
    if s.len() == 0 {
        0
    } else {
        (big_val(s.drop_last()) + s.last() * pow2(64 * (s.len() - 1) as nat)) as nat
    }
}

proof fn lemma_big_val_push(s: Seq<u64>, x: u64)
    ensures
        big_val(s.push(x)) == big_val(s) + x * pow2(64 * s.len()),
{
    assert(s.push(x).drop_last() =~= s);
    assert(s.push(x).last() == x);
}

proof fn lemma_big_val_cons(h: u64, t: Seq<u64>)
    ensures
        big_val(seq![h] + t) == h + pow2(64) * big_val(t),
    decreases t.len(),
{
    let s = seq![h] + t;
    if t.len() == 0 {
        assert(s =~= seq![h]);
        assert(s.drop_last() =~= Seq::<u64>::empty());
        lemma2_to64();
        assert(64 * (s.len() - 1) as nat == 0);
        assert(big_val(s) == (big_val(s.drop_last()) + s.last() * pow2(
            64 * (s.len() - 1) as nat,
        )) as nat);
        assert(t =~= Seq::<u64>::empty());
    } else {
        assert(s.drop_last() =~= seq![h] + t.drop_last());
        lemma_big_val_cons(h, t.drop_last());
        assert(s.last() == t.last());
        assert(s.len() - 1 == t.len());
        lemma_pow2_adds(64, 64 * (t.len() - 1) as nat);
        // big_val(s) == h + pow2(64)*big_val(t.drop_last())
        //             + t.last() * (pow2(64) * pow2(64*(t.len()-1)))
        assert(t.last() * pow2(64 * t.len() as nat) == pow2(64) * (t.last() * pow2(
            64 * (t.len() - 1) as nat,
        ))) by (nonlinear_arith)
            requires
                pow2(64 * t.len() as nat) == pow2(64) * pow2(64 * (t.len() - 1) as nat),
        ;
        assert(pow2(64) * big_val(t.drop_last()) + pow2(64) * (t.last() * pow2(
            64 * (t.len() - 1) as nat,
        )) == pow2(64) * big_val(t)) by (nonlinear_arith)
            requires
                big_val(t) == big_val(t.drop_last()) + t.last() * pow2(64 * (t.len() - 1) as nat),
        ;
    }
}

proof fn lemma_big_val_bound(s: Seq<u64>)
    ensures
        big_val(s) < pow2(64 * s.len()),
    decreases s.len(),
{
    if s.len() == 0 {
        lemma2_to64();
    } else {
        lemma_big_val_bound(s.drop_last());
        lemma_pow2_adds(64, 64 * (s.len() - 1) as nat);
        let p = pow2(64 * (s.len() - 1) as nat);
        lemma2_to64();
        lemma2_to64_rest();
        assert(big_val(s.drop_last()) + s.last() * p < pow2(64) * p) by (nonlinear_arith)
            requires
                big_val(s.drop_last()) < p,
                s.last() < pow2(64),
                0 < p,
        ;
    }
}

/// A single-limb number.
fn big_from_u64(x: u64) -> (r: Vec<u64>)
    ensures
        big_val(r@) == x,
{
    let mut r: Vec<u64> = Vec::new();
    r.push(x);
    proof {
        assert(r@.drop_last() =~= Seq::<u64>::empty());
        lemma2_to64();
        assert(64 * (r@.len() - 1) as nat == 0);
        assert(big_val(r@) == (big_val(r@.drop_last()) + r@.last() * pow2(
            64 * (r@.len() - 1) as nat,
        )) as nat);
    }
    r
}

proof fn lemma_mul_small_step(bvr: int, bvt: int, ai: int, m: int, p: int, c: int, lo: int, hi: int)
    requires
        bvr + c * p == bvt * m,
        ai * m + c == lo + hi * 0x1_0000_0000_0000_0000,
    ensures
        (bvr + lo * p) + hi * (0x1_0000_0000_0000_0000 * p) == (bvt + ai * p) * m,
{
    assert((bvr + lo * p) + hi * (0x1_0000_0000_0000_0000 * p) == (bvt + ai * p) * m)
        by (nonlinear_arith)
        requires
            bvr + c * p == bvt * m,
            ai * m + c == lo + hi * 0x1_0000_0000_0000_0000,
    ;
}

/// The number multiplied by a word-sized factor.
#[verifier::rlimit(50)]
#[verifier::loop_isolation(false)]
fn big_mul_small(a: &Vec<u64>, m: u64) -> (r: Vec<u64>)
    ensures
        big_val(r@) == big_val(a@) * m,
{
    let mut r: Vec<u64> = Vec::new();
    let mut carry: u64 = 0;
    let mut i: usize = 0;
    proof {
        assert(a@.take(0) =~= Seq::<u64>::empty());
        lemma2_to64();
        lemma2_to64_rest();
    }
    while i < a.len()
        invariant
            0 <= i <= a@.len(),
            r@.len() == i,
            big_val(r@) + carry * pow2(64 * i as nat) == big_val(a@.take(i as int)) * m,
        decreases a@.len() - i,
    {
        proof {
            assert((a@[i as int] as u128) * (m as u128) + (carry as u128) < 0x1_0000_0000_0000_0000u128
                * 0x1_0000_0000_0000_0000) by (nonlinear_arith)
                requires
                    a@[i as int] < 0x1_0000_0000_0000_0000u128,
                    m < 0x1_0000_0000_0000_0000u128,
                    carry < 0x1_0000_0000_0000_0000u128,
            ;
        }
        let prod: u128 = (a[i] as u128) * (m as u128) + (carry as u128);
        let lo: u64 = (prod % 0x1_0000_0000_0000_0000u128) as u64;
        let hi: u64 = (prod / 0x1_0000_0000_0000_0000u128) as u64;
        proof {
            assert(prod == lo + hi * 0x1_0000_0000_0000_0000);
            lemma_big_val_push(r@, lo);
            lemma_pow2_adds(64, 64 * i as nat);
            assert(a@.take(i + 1).drop_last() =~= a@.take(i as int));
            assert(big_val(a@.take(i + 1)) == big_val(a@.take(i as int)) + a@[i as int] * pow2(
                64 * i as nat,
            ));
            lemma_mul_small_step(
                big_val(r@) as int,
                big_val(a@.take(i as int)) as int,
                a@[i as int] as int,
                m as int,
                pow2(64 * i as nat) as int,
                carry as int,
                lo as int,
                hi as int,
            );
        }
        r.push(lo);
        carry = hi;
        i = i + 1;
    }
    proof {
        assert(a@.take(a@.len() as int) =~= a@);
    }
    if carry > 0 {
        proof {
            lemma_big_val_push(r@, carry);
        }
        r.push(carry);
    }
    r
}

/// The number multiplied by 2^64: the limbs move up one place.
#[verifier::rlimit(50)]
#[verifier::loop_isolation(false)]
fn big_shl_limb(a: &Vec<u64>) -> (r: Vec<u64>)
    ensures
        big_val(r@) == big_val(a@) * pow2(64),
{
    let mut r: Vec<u64> = Vec::new();
    r.push(0);
    let mut i: usize = 0;
    while i < a.len()
        invariant
            0 <= i <= a@.len(),
            r@ =~= seq![0u64] + a@.take(i as int),
        decreases a@.len() - i,
    {
        let v = a[i];
        r.push(v);
        proof {
            assert(r@ =~= seq![0u64] + a@.take(i + 1));
        }
        i = i + 1;
    }
    proof {
        assert(a@.take(a@.len() as int) =~= a@);
        assert(r@ =~= seq![0u64] + a@);
        lemma_big_val_cons(0, a@);
    }
    r
}

#[verifier::rlimit(50)]
proof fn lemma_split_at(s: Seq<u64>, i: int)
    requires
        0 <= i <= s.len(),
    ensures
        big_val(s) == big_val(s.take(i)) + big_val(s.skip(i)) * pow2(64 * i as nat),
    decreases s.len() - i,
{
    if i == s.len() {
        assert(s.take(i) =~= s);
        assert(s.skip(i) =~= Seq::<u64>::empty());
        lemma2_to64();
    } else {
        lemma_split_at(s, i + 1);
        let p = pow2(64 * i as nat);
        let r = big_val(s.skip(i + 1));
        let t = big_val(s.take(i));
        assert(s.take(i + 1) =~= s.take(i).push(s[i]));
        assert(s.take(i).push(s[i]).drop_last() =~= s.take(i));
        assert(big_val(s.take(i + 1)) == t + s[i] * pow2(64 * s.take(i).len()));
        assert(s.take(i).len() == i);
        assert(big_val(s.take(i + 1)) == t + s[i] * p);
        assert(s.skip(i) =~= seq![s[i]] + s.skip(i + 1));
        lemma_big_val_cons(s[i], s.skip(i + 1));
        assert(big_val(s.skip(i)) == s[i] + pow2(64) * r);
        lemma_pow2_adds(64, 64 * i as nat);
        assert(pow2(64 * (i + 1) as nat) == pow2(64) * p);
        assert(big_val(s) == t + s[i] * p + r * (pow2(64) * p));
        assert(r * (pow2(64) * p) == (pow2(64) * r) * p) by (nonlinear_arith);
        assert((s[i] + pow2(64) * r) * p == s[i] * p + (pow2(64) * r) * p) by (nonlinear_arith);
        assert(big_val(s) == t + big_val(s.skip(i)) * p);
    }
}

proof fn lemma_lt_at_limb(xlow: int, ylow: int, xi: int, yi: int, rest: int, p: int)
    requires
        0 <= xlow < p,
        0 <= ylow,
        0 <= rest,
        0 <= xi < yi,
        0 < p,
    ensures
        xlow + (xi + 0x1_0000_0000_0000_0000 * rest) * p < ylow + (yi + 0x1_0000_0000_0000_0000
            * rest) * p,
{
    assert(xlow + (xi + 0x1_0000_0000_0000_0000 * rest) * p < ylow + (yi
        + 0x1_0000_0000_0000_0000 * rest) * p) by (nonlinear_arith)
        requires
            0 <= xlow < p,
            0 <= ylow,
            0 <= rest,
            0 <= xi < yi,
            0 < p,
    ;
}

/// Whether the first number is strictly smaller. The two limb sequences must
/// have the same length; the quantizer only compares numbers it has built to
/// matching widths.
#[verifier::loop_isolation(false)]
fn big_lt(x: &Vec<u64>, y: &Vec<u64>) -> (r: bool)
    requires
        x@.len() == y@.len(),
    ensures
        r == (big_val(x@) < big_val(y@)),
{
    let mut i: usize = x.len();
    while i > 0
        invariant
            0 <= i <= x@.len(),
            x@.len() == y@.len(),
            x@.skip(i as int) =~= y@.skip(i as int),
        decreases i,
    {
        i = i - 1;
        if x[i] < y[i] {
            proof {
                lemma_split_at(x@, i as int);
                lemma_split_at(y@, i as int);
                assert(x@.skip(i as int) =~= seq![x@[i as int]] + x@.skip(i + 1));
                assert(y@.skip(i as int) =~= seq![y@[i as int]] + y@.skip(i + 1));
                lemma_big_val_cons(x@[i as int], x@.skip(i + 1));
                lemma_big_val_cons(y@[i as int], y@.skip(i + 1));
                lemma_big_val_bound(x@.take(i as int));
                lemma2_to64();
                lemma2_to64_rest();
                assert(x@.skip(i + 1) =~= y@.skip(i + 1));
                lemma_lt_at_limb(
                    big_val(x@.take(i as int)) as int,
                    big_val(y@.take(i as int)) as int,
                    x@[i as int] as int,
                    y@[i as int] as int,
                    big_val(x@.skip(i + 1)) as int,
                    pow2(64 * i as nat) as int,
                );
            }
            return true;
        }
        if x[i] > y[i] {
            proof {
                lemma_split_at(x@, i as int);
                lemma_split_at(y@, i as int);
                assert(x@.skip(i as int) =~= seq![x@[i as int]] + x@.skip(i + 1));
                assert(y@.skip(i as int) =~= seq![y@[i as int]] + y@.skip(i + 1));
                lemma_big_val_cons(x@[i as int], x@.skip(i + 1));
                lemma_big_val_cons(y@[i as int], y@.skip(i + 1));
                lemma_big_val_bound(y@.take(i as int));
                lemma2_to64();
                lemma2_to64_rest();
                assert(x@.skip(i + 1) =~= y@.skip(i + 1));
                lemma_lt_at_limb(
                    big_val(y@.take(i as int)) as int,
                    big_val(x@.take(i as int)) as int,
                    y@[i as int] as int,
                    x@[i as int] as int,
                    big_val(y@.skip(i + 1)) as int,
                    pow2(64 * i as nat) as int,
                );
            }
            return false;
        }
        proof {
            assert(x@.skip(i as int) =~= seq![x@[i as int]] + x@.skip(i + 1));
            assert(y@.skip(i as int) =~= seq![y@[i as int]] + y@.skip(i + 1));
        }
    }
    proof {
        assert(x@.skip(0) =~= x@);
        assert(y@.skip(0) =~= y@);
        assert(x@ =~= y@);
    }
    false
}

/// The number of limbs, so that callers can build matching widths.
fn big_len(a: &Vec<u64>) -> (r: usize)
    ensures
        r == a@.len(),
{
    a.len()
}

/// Pad with high zero limbs up to the given width; the value is unchanged.
#[verifier::loop_isolation(false)]
fn big_pad_to(a: &mut Vec<u64>, width: usize)
    ensures
        big_val(final(a)@) == big_val(old(a)@),
        final(a)@.len() == (if old(a)@.len() >= width {
            old(a)@.len() as int
        } else {
            width as int
        }),
{
    while a.len() < width
        invariant
            big_val(a@) == big_val(old(a)@),
            old(a)@.len() <= a@.len(),
            a@.len() <= (if old(a)@.len() >= width {
                old(a)@.len() as int
            } else {
                width as int
            }),
        decreases width - a@.len(),
    {
        proof {
            lemma_big_val_push(a@, 0);
        }
        a.push(0);
    }
}

pub struct BigNat {
    limbs: Vec<u64>,
}

impl BigNat {
    /// The natural number this value stands for.
    pub closed spec fn spec_val(self) -> nat {
        big_val(self.limbs@)
    }

    /// The number of limbs held.
    pub closed spec fn spec_width(self) -> int {
        self.limbs@.len() as int
    }

    /// A word-sized starting value.
    pub fn from_u64(x: u64) -> (r: BigNat)
        ensures
            r.spec_val() == x,
    {
        BigNat { limbs: big_from_u64(x) }
    }

    /// Multiply by a word-sized factor.
    pub fn mul_u64(&self, m: u64) -> (r: BigNat)
        ensures
            r.spec_val() == self.spec_val() * m,
    {
        BigNat { limbs: big_mul_small(&self.limbs, m) }
    }

    /// Multiply by 2^64.
    pub fn shl_limb(&self) -> (r: BigNat)
        ensures
            r.spec_val() == self.spec_val() * pow2(64),
    {
        BigNat { limbs: big_shl_limb(&self.limbs) }
    }

    /// Widen both numbers to the same number of limbs and compare.
    pub fn lt(&mut self, other: &mut BigNat) -> (r: bool)
        ensures
            final(self).spec_val() == old(self).spec_val(),
            final(other).spec_val() == old(other).spec_val(),
            r == (old(self).spec_val() < old(other).spec_val()),
    {
        let w1 = big_len(&self.limbs);
        let w2 = big_len(&other.limbs);
        let w = if w1 >= w2 {
            w1
        } else {
            w2
        };
        big_pad_to(&mut self.limbs, w);
        big_pad_to(&mut other.limbs, w);
        big_lt(&self.limbs, &other.limbs)
    }
}

} // verus!
