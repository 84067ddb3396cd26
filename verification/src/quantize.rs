//! Quantizing a frequency to a MIDI note number: the nearest note of the
//! twelve-tone equal-tempered scale anchored at A440, that is
//! `round(12 * log2(f / 440) + 69)`, saturated to the note range.
//!
//! The frequency arrives as the exact rational `sample_rate / lag`, and the
//! rounding is decided exactly in integers: the note is the least `m` with
//! `12 * log2(f / 440) + 69 < m + 1/2`, and raising both sides of that
//! comparison to the 24th power of 2 turns it into
//! `rate^24 * 2^137 < (440 * lag)^24 * 2^(2m)`,
//! a comparison of two exact (if large) naturals. Rational frequencies never
//! sit on a half-step boundary, so the strict comparison loses nothing.

use vstd::prelude::*;
use vstd::arithmetic::power::pow;
use vstd::arithmetic::power::lemma_pow1;
use vstd::arithmetic::power::lemma_pow_adds;
use vstd::arithmetic::power2::pow2;
use vstd::arithmetic::power2::lemma_pow2_adds;
use vstd::arithmetic::power2::lemma2_to64;
use crate::bignum::BigNat;

verus! {

/// Whether the frequency `rate / lag` Hz rounds below the half step over
/// note `m`: exactly `12 * log2((rate / lag) / 440) + 69 < m + 1/2`, both
/// sides raised to the 24th power of two.
pub open spec fn spec_below_half_step(rate: int, lag: int, m: int) -> bool {
    pow(rate, 24) * pow2(137) < pow(440 * lag, 24) * pow2((2 * m) as nat)
}

/// The least `m` at or above the given one under whose half step the
/// frequency falls, saturated at 255.
pub open spec fn spec_midi_from(rate: int, lag: int, m: int) -> int
    decreases 255 - m,
{
    if m >= 255 {
        255
    } else if spec_below_half_step(rate, lag, m) {
        m
    } else {
        spec_midi_from(rate, lag, m + 1)
    }
}

/// The MIDI note number of the frequency `rate / lag` Hz: the nearest note
/// of the equal-tempered scale, with 69 = A440, saturated to [0, 255].
pub open spec fn spec_freq_to_midi(rate: int, lag: int) -> int {
    spec_midi_from(rate, lag, 0)
}

/// Raise a word-sized base to the 24th power.
fn big_pow24(base: u64) -> (r: BigNat)
    requires
        base >= 1,
    ensures
        r.spec_val() as int == pow(base as int, 24),
{
    let mut r = BigNat::from_u64(base);
    let mut k: usize = 1;
    proof {
        lemma_pow1(base as int);
    }
    while k < 24
        invariant
            1 <= k <= 24,
            r.spec_val() as int == pow(base as int, k as nat),
        decreases 24 - k,
    {
        r = r.mul_u64(base);
        proof {
            lemma_pow_adds(base as int, k as nat, 1);
            lemma_pow1(base as int);
        }
        k = k + 1;
    }
    r
}

/// Quantize the frequency `sample_rate / lag` Hz to its MIDI note number:
/// `round(12 * log2(f / 440) + 69)`, saturated at 0 and 255. The decision is
/// made in exact integer arithmetic.
#[verifier::loop_isolation(false)]
pub fn freq_to_midi(sample_rate: u32, lag: u64) -> (r: u8)
    requires
        sample_rate >= 1,
        1 <= lag <= 0x0001_0000_0000_0000,
    ensures
        r as int == spec_freq_to_midi(sample_rate as int, lag as int),
{
    let ghost rate = sample_rate as int;
    let ghost lagi = lag as int;
    let mut a = big_pow24(sample_rate as u64);
    // a := rate^24 * 2^137, built as * 2^64 * 2^64 * 2^9
    proof {
        lemma_pow2_adds(64, 64);
        lemma_pow2_adds(128, 9);
        lemma2_to64();
    }
    let ghost p24 = pow(rate, 24);
    a = a.shl_limb();
    a = a.shl_limb();
    proof {
        assert((p24 * pow2(64)) * pow2(64) == p24 * pow2(128)) by (nonlinear_arith)
            requires
                pow2(64) * pow2(64) == pow2(128),
        ;
    }
    a = a.mul_u64(512);
    proof {
        assert((p24 * pow2(128)) * 512 == p24 * pow2(137)) by (nonlinear_arith)
            requires
                pow2(128) * 512 == pow2(137),
        ;
        assert(a.spec_val() as int == p24 * pow2(137));
    }
    let base: u64 = 440 * lag;
    let mut b = big_pow24(base);
    let ghost q24 = pow(440 * lagi, 24);
    proof {
        assert(q24 * pow2(0) == q24);
        assert((2 * 0) as nat == 0nat);
    }
    let mut m: u8 = 0;
    while m < 255
        invariant
            0 <= m <= 255,
            a.spec_val() as int == p24 * pow2(137),
            b.spec_val() as int == q24 * pow2((2 * m as int) as nat),
            p24 == pow(rate, 24),
            q24 == pow(440 * lagi, 24),
            spec_midi_from(rate, lagi, 0) == spec_midi_from(rate, lagi, m as int),
        decreases 255 - m,
    {
        if a.lt(&mut b) {
            proof {
                assert(spec_below_half_step(rate, lagi, m as int));
                assert(spec_midi_from(rate, lagi, m as int) == m as int);
            }
            return m;
        }
        proof {
            assert(!spec_below_half_step(rate, lagi, m as int));
            assert(spec_midi_from(rate, lagi, m as int) == spec_midi_from(
                rate,
                lagi,
                m as int + 1,
            ));
            lemma_pow2_adds((2 * m as int) as nat, 2);
            lemma2_to64();
            assert((q24 * pow2((2 * m as int) as nat)) * 4 == q24 * pow2(
                (2 * (m as int + 1)) as nat,
            )) by (nonlinear_arith)
                requires
                    pow2((2 * m as int) as nat) * 4 == pow2((2 * (m as int + 1)) as nat),
            ;
        }
        b = b.mul_u64(4);
        m = m + 1;
    }
    proof {
        assert(spec_midi_from(rate, lagi, 255) == 255);
    }
    255
}

} // verus!
