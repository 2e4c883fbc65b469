//! Automatic gain control for weak sources, in fixed point: the gain is held
//! in 1/256 units, moved exponentially toward `target_rms / batch_rms`
//! (clamped to `[1, max]`), and applied with a soft knee below full scale.
use vstd::prelude::*;
use crate::suppression::sum_sq;

verus! {

/// Gain unit: a gain of `g` means `g / GAIN_ONE`.
pub const GAIN_ONE: u32 = 256;

/// Desired batch RMS, about a tenth of full scale.
pub const AGC_TARGET_RMS: u64 = 3277;

/// Largest gain (50x).
pub const AGC_MAX_GAIN: u32 = 12800;

/// Gain a session starts with (10x).
pub const AGC_INITIAL_GAIN: u32 = 2560;

/// Batches at or below this RMS level leave the gain unchanged.
pub const AGC_MIN_RMS: u64 = 33;

/// Smoothing: the new gain is `(19 * old + desired) / 20`.
pub const AGC_SMOOTH_KEEP: u64 = 19;

pub const AGC_SMOOTH_DEN: u64 = 20;

/// Samples with magnitude up to the knee pass unchanged.
pub const SOFT_KNEE: i64 = 29491;

/// Room between the knee and full scale.
pub const SOFT_HEADROOM: i64 = 3276;

/// `r` is the integer square root of `n`.
pub open spec fn is_isqrt(n: nat, r: nat) -> bool {
    r * r <= n < (r + 1) * (r + 1)
}

/// Floored mean square of a non-empty batch.
pub open spec fn mean_square(s: Seq<i16>) -> int {
    sum_sq(s) / (s.len() as int)
}

pub open spec fn clamp_gain(g: int) -> int {
    if g < GAIN_ONE {
        GAIN_ONE as int
    } else if g > AGC_MAX_GAIN {
        AGC_MAX_GAIN as int
    } else {
        g
    }
}

/// `x` scaled by `gain / GAIN_ONE`, rounded toward zero.
pub open spec fn amplify(x: i16, gain: nat) -> int {
    if x >= 0 {
        (x as int) * gain / (GAIN_ONE as int)
    } else {
        -((-(x as int)) * gain / (GAIN_ONE as int))
    }
}

/// Saturating curve: identity up to the knee, then approaching full scale
/// without reaching it.
pub open spec fn soft_clip(a: int) -> int {
    let m = if a >= 0 { a } else { -a };
    if m <= SOFT_KNEE {
        a
    } else {
        let c = SOFT_KNEE + SOFT_HEADROOM * (m - SOFT_KNEE) / (m - SOFT_KNEE + SOFT_HEADROOM);
        if a >= 0 { c } else { -c }
    }
}

/// Integer square root by bisection.
pub fn isqrt(n: u64) -> (r: u64)
    ensures
        is_isqrt(n as nat, r as nat),
{
    let n2: u128 = n as u128;
    let mut lo: u128 = 0;
    let mut hi: u128 = 0x1_0000_0000;
    assert(hi * hi > n2) by (nonlinear_arith)
        requires
            hi == 0x1_0000_0000,
            n2 <= 0xffff_ffff_ffff_ffff,
    ;
    while hi - lo > 1
        invariant
            lo < hi <= 0x1_0000_0000,
            lo * lo <= n2,
            n2 < hi * hi,
        decreases hi - lo,
    {
        let mid: u128 = lo + (hi - lo) / 2;
        assert(mid * mid <= 0x1_0000_0000 * 0x1_0000_0000) by (nonlinear_arith)
            requires
                mid < 0x1_0000_0000,
        ;
        if mid * mid <= n2 {
            lo = mid;
        } else {
            hi = mid;
        }
    }
    assert(hi == lo + 1);
    assert(lo <= 0xffff_ffff);
    lo as u64
}

/// Applies `soft_clip` to an amplified value.
pub fn soft_clip_exec(a: i64) -> (r: i16)
    ensures
        r as int == soft_clip(a as int),
        -32767 <= r <= 32767 || r == a,
{
    let a2: i128 = a as i128;
    let m: i128 = if a2 >= 0 {
        a2
    } else {
        -a2
    };
    if m <= SOFT_KNEE as i128 {
        return a as i16;
    }
    let over: i128 = m - SOFT_KNEE as i128;
    let h: i128 = SOFT_HEADROOM as i128;
    assert(h * over <= 3276 * 0x1_0000_0000_0000_0000) by (nonlinear_arith)
        requires
            h == 3276,
            0 < over <= 0x1_0000_0000_0000_0000,
    ;
    let q: i128 = h * over / (over + h);
    assert(q < h) by (nonlinear_arith)
        requires
            over > 0,
            h > 0,
            q == h * over / (over + h),
    ;
    assert(q >= 0) by (nonlinear_arith)
        requires
            over > 0,
            h > 0,
            q == h * over / (over + h),
    ;
    let c: i128 = SOFT_KNEE as i128 + q;
    if a >= 0 {
        c as i16
    } else {
        (-c) as i16
    }
}

/// The gain after a batch with mean square `ms`, from gain `g`.
pub open spec fn next_gain_of(g: nat, ms: int, desired: int) -> int {
    if ms <= AGC_MIN_RMS * AGC_MIN_RMS {
        g as int
    } else {
        (AGC_SMOOTH_KEEP * g + clamp_gain(desired)) / (AGC_SMOOTH_DEN as int)
    }
}

pub struct AutomaticGainControl {
    gain: u32,
}

impl AutomaticGainControl {
    pub closed spec fn gain(&self) -> nat {
        self.gain as nat
    }

    pub closed spec fn wf(&self) -> bool {
        GAIN_ONE <= self.gain <= AGC_MAX_GAIN
    }

    pub fn new() -> (r: Self)
        ensures
            r.wf(),
            r.gain() == AGC_INITIAL_GAIN,
    {
        AutomaticGainControl { gain: AGC_INITIAL_GAIN }
    }

    pub fn current_gain(&self) -> (r: u32)
        ensures
            r == self.gain(),
    {
        self.gain
    }

    /// The gain after seeing a batch with mean square `ms`: unchanged for a
    /// near-silent batch, else moved a twentieth of the way toward the
    /// clamped `GAIN_ONE * target_rms / rms`.
    pub open spec fn next_gain(&self, ms: int, desired: int) -> int {
        next_gain_of(self.gain(), ms, desired)
    }

    /// Updates the gain from the batch and returns the batch amplified and
    /// soft-clipped. `desired` is the integer square root of
    /// `GAIN_ONE^2 * target^2 / mean_square`.
    pub fn process(&mut self, batch: &[i16]) -> (r: Vec<i16>)
        requires
            old(self).wf(),
        ensures
            final(self).wf(),
            batch@.len() == 0 ==> final(self).gain() == old(self).gain(),
            batch@.len() > 0 ==> exists|desired: nat|
                {
                    &&& mean_square(batch@) > AGC_MIN_RMS * AGC_MIN_RMS ==> is_isqrt(
                        ((GAIN_ONE * GAIN_ONE * AGC_TARGET_RMS * AGC_TARGET_RMS) as int
                            / mean_square(batch@)) as nat,
                        desired,
                    )
                    &&& final(self).gain() == old(self).next_gain(
                        mean_square(batch@),
                        desired as int,
                    )
                },
            r@.len() == batch@.len(),
            forall|j: int|
                0 <= j < batch@.len() ==> #[trigger] r@[j] as int == soft_clip(
                    amplify(batch@[j], final(self).gain()),
                ),
    {
        let ghost mut desired: nat = 0;
        let ghost g0 = self.gain();
        if batch.len() > 0 {
            let mut acc: u128 = 0;
            let mut i: usize = 0;
            while i < batch.len()
                invariant
                    0 <= i <= batch@.len(),
                    acc == sum_sq(batch@.subrange(0, i as int)),
                    acc <= i * 0x4000_0000,
                decreases batch@.len() - i,
            {
                let x: i32 = batch[i] as i32;
                assert(batch@.subrange(0, i + 1).drop_last() =~= batch@.subrange(0, i as int));
                assert(x * x <= 0x4000_0000) by (nonlinear_arith)
                    requires
                        -32768 <= x <= 32767,
                ;
                assert(x * x >= 0) by (nonlinear_arith);
                acc = acc + (x * x) as u128;
                i = i + 1;
            }
            assert(batch@.subrange(0, i as int) =~= batch@);
            let ms: u128 = acc / (batch.len() as u128);
            assert(ms <= 0x4000_0000) by (nonlinear_arith)
                requires
                    acc <= batch@.len() * 0x4000_0000,
                    ms == (acc as int) / (batch@.len() as int),
                    batch@.len() > 0,
            ;
            assert(ms == mean_square(batch@));
            if ms > (AGC_MIN_RMS * AGC_MIN_RMS) as u128 {
                let num: u64 = (GAIN_ONE as u64) * (GAIN_ONE as u64) * AGC_TARGET_RMS
                    * AGC_TARGET_RMS;
                let d: u64 = isqrt(num / (ms as u64));
                proof {
                    desired = d as nat;
                }
                let target: u64 = if d < GAIN_ONE as u64 {
                    GAIN_ONE as u64
                } else if d > AGC_MAX_GAIN as u64 {
                    AGC_MAX_GAIN as u64
                } else {
                    d
                };
                let g: u64 = (AGC_SMOOTH_KEEP * (self.gain as u64) + target) / AGC_SMOOTH_DEN;
                self.gain = g as u32;
            }
            assert(self.gain() == next_gain_of(g0, mean_square(batch@), desired as int));
        }
        let gain: u64 = self.gain as u64;
        let mut out: Vec<i16> = Vec::with_capacity(batch.len());
        let mut k: usize = 0;
        while k < batch.len()
            invariant
                k <= batch@.len(),
                batch@.len() > 0 ==> self.gain() == next_gain_of(
                    g0,
                    mean_square(batch@),
                    desired as int,
                ),
                batch@.len() == 0 ==> self.gain() == g0,
                g0 == old(self).gain(),
                gain == self.gain(),
                self.wf(),
                out@.len() == k,
                forall|j: int|
                    0 <= j < k ==> #[trigger] out@[j] as int == soft_clip(
                        amplify(batch@[j], self.gain()),
                    ),
            decreases batch@.len() - k,
        {
            let x: i16 = batch[k];
            let m: u64 = if x >= 0 {
                x as u64
            } else {
                (-(x as i32)) as u64
            };
            assert(m * gain <= 32768 * 12800) by (nonlinear_arith)
                requires
                    m <= 32768,
                    gain <= 12800,
            ;
            let scaled: i64 = (m * gain / (GAIN_ONE as u64)) as i64;
            let a: i64 = if x >= 0 {
                scaled
            } else {
                -scaled
            };
            out.push(soft_clip_exec(a));
            k = k + 1;
        }
        proof {
            if batch@.len() > 0 {
                assert(mean_square(batch@) > AGC_MIN_RMS * AGC_MIN_RMS ==> is_isqrt(
                    ((GAIN_ONE * GAIN_ONE * AGC_TARGET_RMS * AGC_TARGET_RMS) as int / mean_square(
                        batch@,
                    )) as nat,
                    desired,
                ));
                assert(self.gain() == old(self).next_gain(mean_square(batch@), desired as int));
            }
        }
        out
    }
}

} // verus!
