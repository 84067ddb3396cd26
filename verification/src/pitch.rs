//! Pitch estimation: one fixed-size frame of fixed-point samples is turned
//! into an optional fundamental frequency. A frame whose summed absolute
//! amplitude is at or below the configured minimum volume counts as silence.
//! Otherwise the frame's autocorrelation sequence is computed exactly (the
//! direct form of the usual FFT computation, which equals it up to a positive
//! scale factor that moves no peak), its strict local maxima are located,
//! and the distance in samples between the two tallest of them — the zero-lag
//! peak at the center and the strongest side peak, one period away — is the
//! period of the fundamental: frequency = sample rate / distance.

use vstd::prelude::*;
use vstd::math::abs;

verus! {

/// The largest frame length the estimator accepts. Far beyond any real
/// analysis window, and small enough that every intermediate product and sum
/// below fits its machine integer.
pub const MAX_FRAME_LEN: usize = 0x0100_0000;

/// Sum of the absolute values of the samples.
pub open spec fn spec_sum_abs(s: Seq<i32>) -> int
    decreases s.len(),
{
    if s.len() == 0 {
        0
    } else {
        spec_sum_abs(s.drop_last()) + abs(s.last() as int)
    }
}

/// Sum of the first `n` products of the frame with itself shifted by `d`:
/// the partial sums of the autocorrelation at lag `d`.
pub open spec fn spec_ac_prefix(s: Seq<i32>, d: int, n: int) -> int
    decreases n,
{
    if n <= 0 {
        0
    } else {
        spec_ac_prefix(s, d, n - 1) + (s[n - 1] as int) * (s[n - 1 + d] as int)
    }
}

/// The autocorrelation of a frame at lag `d`: the sum of `s[i] * s[i + d]`
/// over every `i` where both indices lie in the frame.
pub open spec fn spec_ac(s: Seq<i32>, d: int) -> int {
    spec_ac_prefix(s, d, s.len() - d)
}

/// The lag that position `j` of the arranged autocorrelation buffer stands
/// for: the zero lag sits at the center `n`, and the buffer is symmetric
/// around it.
pub open spec fn spec_lag_at(j: int, n: int) -> int {
    if j < n {
        n - j
    } else {
        j - n
    }
}

/// The arranged autocorrelation sequence of a frame: twice the frame's
/// length, with the value at `j` the autocorrelation at lag `|j - n|`.
pub open spec fn spec_autocorr(s: Seq<i32>) -> Seq<int> {
    Seq::new(2 * s.len(), |j: int| spec_ac(s, spec_lag_at(j, s.len() as int)))
}

/// A strict local maximum: greater than both its neighbours. The first and
/// last positions have only one neighbour and never count; a plateau of
/// equal values also never counts. This is the tie-break this library fixes
/// for the underspecified notion of a peak.
pub open spec fn spec_is_peak(c: Seq<int>, p: int) -> bool {
    &&& 1 <= p
    &&& p + 1 < c.len()
    &&& c[p - 1] < c[p]
    &&& c[p + 1] < c[p]
}

/// The peak positions among the first `n` positions, in increasing order.
pub open spec fn spec_peaks_prefix(c: Seq<int>, n: int) -> Seq<int>
    decreases n,
{
    if n <= 0 {
        Seq::empty()
    } else {
        spec_peaks_prefix(c, n - 1) + (if spec_is_peak(c, n - 1) {
            seq![n - 1]
        } else {
            Seq::<int>::empty()
        })
    }
}

/// All peak positions of the sequence, in increasing order.
pub open spec fn spec_peaks(c: Seq<int>) -> Seq<int> {
    spec_peaks_prefix(c, c.len() as int)
}

/// The values of an autocorrelation buffer, as unbounded integers.
pub open spec fn spec_values(c: Seq<i128>) -> Seq<int> {
    c.map_values(|v: i128| v as int)
}

/// A frame's pitch estimate: the exact rational frequency
/// `sample_rate / lag` Hz, held as its two integer parts.
#[derive(Clone, Copy, PartialEq, Eq, Structural, Debug)]
pub struct PitchEstimate {
    /// Samples per second of the source signal.
    pub sample_rate: u32,
    /// The detected fundamental period, in samples.
    pub lag: u64,
}

/// The index of the tallest of the listed peak positions, the earlier
/// position winning a tie of heights. This is the tie-break this library
/// fixes for the underspecified order of equally tall peaks.
pub open spec fn spec_best_idx(c: Seq<int>, ps: Seq<int>) -> int
    decreases ps.len(),
{
    if ps.len() <= 1 {
        0
    } else {
        let t = spec_best_idx(c, ps.drop_first()) + 1;
        if c[ps[0]] >= c[ps[t]] {
            0
        } else {
            t
        }
    }
}

proof fn lemma_best_idx_in_range(c: Seq<int>, ps: Seq<int>)
    requires
        ps.len() >= 1,
    ensures
        0 <= spec_best_idx(c, ps) < ps.len(),
    decreases ps.len(),
{
    if ps.len() > 1 {
        lemma_best_idx_in_range(c, ps.drop_first());
    }
}

/// What `estimate` returns: no detection for a silent or ambiguous frame,
/// and otherwise the frequency given by the distance between the two tallest
/// autocorrelation peaks — the zero-lag peak and the strongest side peak.
pub open spec fn spec_estimate(s: Seq<i32>, min_volume: int, sample_rate: u32) -> Option<
    PitchEstimate,
> {
    let c = spec_autocorr(s);
    let peaks = spec_peaks(c);
    if spec_sum_abs(s) <= min_volume {
        None
    } else if peaks.len() < 2 {
        None
    } else {
        let i1 = spec_best_idx(c, peaks);
        let p1 = peaks[i1];
        let rest = peaks.remove(i1);
        let p2 = rest[spec_best_idx(c, rest)];
        if abs(p1 - p2) == 0 {
            None
        } else {
            Some(PitchEstimate { sample_rate, lag: abs(p1 - p2) as u64 })
        }
    }
}

proof fn lemma_sum_abs_take_step(s: Seq<i32>, i: int)
    requires
        0 <= i < s.len(),
    ensures
        spec_sum_abs(s.take(i + 1)) == spec_sum_abs(s.take(i)) + abs(s[i] as int),
{
    let t = s.take(i + 1);
    assert(t.drop_last() =~= s.take(i));
    assert(t.last() == s[i]);
}

/// The summed absolute amplitude of a frame.
fn sum_abs(frame: &Vec<i32>) -> (r: u128)
    ensures
        r as int == spec_sum_abs(frame@),
{
    let mut acc: u128 = 0;
    let mut i: usize = 0;
    proof {
        assert(frame@.take(0) =~= Seq::<i32>::empty());
    }
    while i < frame.len()
        invariant
            0 <= i <= frame@.len(),
            acc as int == spec_sum_abs(frame@.take(i as int)),
            acc <= i as int * 0x8000_0000,
        decreases frame@.len() - i,
    {
        let v = frame[i];
        let a: u128 = if v < 0 {
            -(v as i64) as u128
        } else {
            v as u128
        };
        proof {
            lemma_sum_abs_take_step(frame@, i as int);
        }
        acc = acc + a;
        i = i + 1;
    }
    proof {
        assert(frame@.take(frame@.len() as int) =~= frame@);
    }
    acc
}

proof fn lemma_ac_prefix_bound(s: Seq<i32>, d: int, n: int)
    requires
        0 <= d,
        0 <= n,
        n + d <= s.len(),
    ensures
        -n * 0x4000_0000_0000_0000 <= spec_ac_prefix(s, d, n) <= n * 0x4000_0000_0000_0000,
    decreases n,
{
    if n > 0 {
        lemma_ac_prefix_bound(s, d, n - 1);
        let a = s[n - 1] as int;
        let b = s[n - 1 + d] as int;
        assert(-0x4000_0000_0000_0000 <= a * b <= 0x4000_0000_0000_0000) by (nonlinear_arith)
            requires
                -0x8000_0000 <= a <= 0x7FFF_FFFF,
                -0x8000_0000 <= b <= 0x7FFF_FFFF,
        ;
    }
}

/// The autocorrelation of the frame at one lag.
fn ac_at_lag(frame: &Vec<i32>, d: usize) -> (r: i128)
    requires
        d <= frame@.len(),
        frame@.len() <= MAX_FRAME_LEN,
    ensures
        r as int == spec_ac(frame@, d as int),
{
    let n = frame.len() - d;
    let mut acc: i128 = 0;
    let mut i: usize = 0;
    while i < n
        invariant
            0 <= i <= n,
            n + d == frame@.len(),
            frame@.len() <= MAX_FRAME_LEN,
            acc == spec_ac_prefix(frame@, d as int, i as int),
            -(i as int) * 0x4000_0000_0000_0000 <= acc as int <= i as int
                * 0x4000_0000_0000_0000,
        decreases n - i,
    {
        let a = frame[i] as i128;
        let b = frame[i + d] as i128;
        proof {
            assert(-0x4000_0000_0000_0000 <= a as int * b as int <= 0x4000_0000_0000_0000)
                by (nonlinear_arith)
                requires
                    -0x8000_0000 <= a as int <= 0x7FFF_FFFF,
                    -0x8000_0000 <= b as int <= 0x7FFF_FFFF,
            ;
        }
        let prod = a * b;
        acc = acc + prod;
        i = i + 1;
    }
    acc
}

/// Compute the arranged autocorrelation sequence of a frame: a buffer of
/// twice the frame's length whose value at `j` is the exact autocorrelation
/// at lag `|j - n|`, so the zero-lag value sits at the center. This direct
/// computation equals the FFT round trip (transform, multiply by the
/// conjugate, inverse transform, rotate by `n`) up to the positive scale
/// factor the unnormalized inverse transform introduces, which moves no peak.
pub fn autocorrelation(frame: &Vec<i32>) -> (out: Vec<i128>)
    requires
        frame@.len() <= MAX_FRAME_LEN,
    ensures
        out@.len() == 2 * frame@.len(),
        spec_values(out@) == spec_autocorr(frame@),
{
    let n = frame.len();
    let mut ac: Vec<i128> = Vec::new();
    let mut d: usize = 0;
    while d < n
        invariant
            0 <= d <= n,
            n == frame@.len(),
            frame@.len() <= MAX_FRAME_LEN,
            ac@.len() == d,
            forall|k: int| 0 <= k < d ==> ac@[k] as int == spec_ac(frame@, k),
        decreases n - d,
    {
        let v = ac_at_lag(frame, d);
        ac.push(v);
        d = d + 1;
    }
    let mut out: Vec<i128> = Vec::new();
    let mut j: usize = 0;
    while j < 2 * n
        invariant
            0 <= j <= 2 * n,
            n == frame@.len(),
            frame@.len() <= MAX_FRAME_LEN,
            ac@.len() == n,
            forall|k: int| 0 <= k < n ==> ac@[k] as int == spec_ac(frame@, k),
            out@.len() == j,
            forall|k: int| 0 <= k < j ==> out@[k] as int == spec_autocorr(frame@)[k],
        decreases 2 * n - j,
    {
        let lag = if j < n {
            n - j
        } else {
            j - n
        };
        let v = if lag == n {
            proof {
                assert(spec_ac(frame@, n as int) == 0);
            }
            0i128
        } else {
            ac[lag]
        };
        out.push(v);
        j = j + 1;
    }
    proof {
        assert(spec_values(out@) =~= spec_autocorr(frame@));
    }
    out
}

/// The positions of all strict local maxima of the buffer, leftmost first.
pub fn find_peaks(data: &Vec<i128>) -> (r: Vec<usize>)
    ensures
        r@.map_values(|p: usize| p as int) == spec_peaks(spec_values(data@)),
        forall|k: int| 0 <= k < r@.len() ==> 1 <= r@[k] && r@[k] + 1 < data@.len(),
{
    let ghost c = spec_values(data@);
    let mut r: Vec<usize> = Vec::new();
    let mut pos: usize = 0;
    proof {
        assert(r@.map_values(|p: usize| p as int) =~= spec_peaks_prefix(c, 0));
    }
    while pos < data.len()
        invariant
            0 <= pos <= data@.len(),
            c == spec_values(data@),
            r@.map_values(|p: usize| p as int) == spec_peaks_prefix(c, pos as int),
            forall|k: int| 0 <= k < r@.len() ==> 1 <= r@[k] && r@[k] + 1 < data@.len(),
        decreases data@.len() - pos,
    {
        if pos >= 1 && pos + 1 < data.len() && data[pos - 1] < data[pos] && data[pos + 1]
            < data[pos] {
            r.push(pos);
            proof {
                assert(spec_is_peak(c, pos as int));
                assert(r@.map_values(|p: usize| p as int) =~= spec_peaks_prefix(
                    c,
                    pos as int + 1,
                ));
            }
        } else {
            proof {
                assert(!spec_is_peak(c, pos as int));
                assert(r@.map_values(|p: usize| p as int) =~= spec_peaks_prefix(
                    c,
                    pos as int + 1,
                ));
            }
        }
        pos = pos + 1;
    }
    r
}

/// The index of the tallest listed peak, the earlier winning a tie.
#[verifier::loop_isolation(false)]
fn best_peak_idx(data: &Vec<i128>, ps: &Vec<usize>) -> (r: usize)
    requires
        ps@.len() >= 1,
        forall|k: int| 0 <= k < ps@.len() ==> ps@[k] < data@.len(),
    ensures
        r as int == spec_best_idx(spec_values(data@), ps@.map_values(|p: usize| p as int)),
        r < ps@.len(),
{
    let ghost c = spec_values(data@);
    let ghost psm = ps@.map_values(|p: usize| p as int);
    let mut idx: usize = ps.len() - 1;
    let mut j: usize = ps.len() - 1;
    proof {
        assert(psm.skip(j as int).len() == 1);
        assert(spec_best_idx(c, psm.skip(j as int)) == 0);
    }
    while j > 0
        invariant
            0 <= j <= idx < ps@.len(),
            idx as int == j + spec_best_idx(c, psm.skip(j as int)),
        decreases j,
    {
        j = j - 1;
        proof {
            let tail = psm.skip(j as int + 1);
            assert(psm.skip(j as int).drop_first() =~= tail);
            lemma_best_idx_in_range(c, tail);
            assert(psm.skip(j as int)[0] == psm[j as int]);
            assert(psm.skip(j as int)[spec_best_idx(c, tail) + 1] == psm[j + spec_best_idx(
                c,
                tail,
            ) + 1]);
            assert(j + spec_best_idx(c, tail) + 1 == idx as int);
            assert(c[psm[j as int]] == data@[ps@[j as int] as int] as int);
            assert(c[psm[idx as int]] == data@[ps@[idx as int] as int] as int);
        }
        if data[ps[j]] >= data[ps[idx]] {
            idx = j;
        }
    }
    proof {
        assert(psm.skip(0) =~= psm);
    }
    idx
}

/// Turn one frame into an optional pitch estimate.
///
/// A frame whose summed absolute amplitude is at or below `min_volume` is
/// silence and yields no detection; so does an ambiguous frame, one whose
/// autocorrelation has fewer than two peaks or a zero peak distance. Every
/// other frame yields the frequency `sample_rate / distance`, where the
/// distance in samples between the two tallest peaks — the zero-lag peak at
/// the center and the strongest side peak — is the period of the
/// fundamental.
pub fn estimate(frame: &Vec<i32>, min_volume: u64, sample_rate: u32) -> (r: Option<PitchEstimate>)
    requires
        frame@.len() <= MAX_FRAME_LEN,
        sample_rate >= 1,
    ensures
        r == spec_estimate(frame@, min_volume as int, sample_rate),
        spec_sum_abs(frame@) <= min_volume ==> r is None,
        r matches Some(e) ==> e.sample_rate == sample_rate && 1 <= e.lag <= 2 * frame@.len(),
{
    let vol = sum_abs(frame);
    if vol <= min_volume as u128 {
        return None;
    }
    let ac = autocorrelation(frame);
    let mut peaks = find_peaks(&ac);
    if peaks.len() < 2 {
        return None;
    }
    let ghost c = spec_values(ac@);
    let ghost psm0 = peaks@.map_values(|p: usize| p as int);
    let i1 = best_peak_idx(&ac, &peaks);
    let p1 = peaks[i1];
    proof {
        assert(psm0[i1 as int] == p1 as int);
    }
    peaks.remove(i1);
    proof {
        psm0.remove_ensures(i1 as int);
        assert(peaks@.map_values(|p: usize| p as int) =~= psm0.remove(i1 as int));
        assert forall|k: int| 0 <= k < peaks@.len() implies peaks@[k] < ac@.len() by {
            if k >= i1 {
                assert(peaks@[k] == psm0.remove(i1 as int)[k]);
            }
        }
    }
    let i2 = best_peak_idx(&ac, &peaks);
    let p2 = peaks[i2];
    proof {
        assert(psm0.remove(i1 as int)[i2 as int] == p2 as int);
    }
    let dist = if p1 >= p2 {
        p1 - p2
    } else {
        p2 - p1
    };
    proof {
        assert(dist as int == abs(p1 as int - p2 as int));
    }
    if dist == 0 {
        return None;
    }
    Some(PitchEstimate { sample_rate, lag: dist as u64 })
}

} // verus!
