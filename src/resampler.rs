//! Streaming linear-interpolation resampler over 16-bit PCM samples.
//!
//! The resampler treats all batches it is fed as one continuous signal: the
//! output of a session is always `resample_seq` of everything fed so far,
//! whatever the batch boundaries were.
use vstd::prelude::*;
use vstd::arithmetic::div_mod::{
    lemma_fundamental_div_mod, lemma_fundamental_div_mod_converse, lemma_div_multiples_vanish,
    lemma_mod_multiples_vanish,
};

verus! {

/// Offset that maps an `i16` sample onto `0..=65535`.
pub const PCM_OFFSET: i32 = 32768;

/// Number of output samples that `len` input samples yield: one output at
/// every input position `k * native / target` that lies within the input.
pub open spec fn out_count(len: nat, native: nat, target: nat) -> nat {
    if len == 0 {
        0
    } else {
        ((((len - 1) * target) as int) / (native as int)) as nat + 1
    }
}

/// Weighted average of `a` and `b` at fraction `f / t` (floored in the
/// unsigned sample domain).
pub open spec fn blend(a: i16, b: i16, f: int, t: int) -> i16 {
    ((((a as int) + 32768) * (t - f) + ((b as int) + 32768) * f) / t - 32768) as i16
}

/// The signal `s` read at position `pos / t` (in input samples).
pub open spec fn sample_at_pos(s: Seq<i16>, pos: int, t: int) -> i16 {
    let i = pos / t;
    let f = pos % t;
    if f == 0 {
        s[i]
    } else {
        blend(s[i], s[i + 1], f, t)
    }
}

/// The whole signal `s`, taken at `native` Hz, resampled to `target` Hz.
pub open spec fn resample_seq(s: Seq<i16>, native: nat, target: nat) -> Seq<i16> {
    Seq::new(
        out_count(s.len(), native, target),
        |k: int| sample_at_pos(s, k * native, target as int),
    )
}

/// What feeding `b` emits once `h` has already been fed.
pub open spec fn emitted(h: Seq<i16>, b: Seq<i16>, native: nat, target: nat) -> Seq<i16> {
    resample_seq(h + b, native, target).subrange(
        resample_seq(h, native, target).len() as int,
        resample_seq(h + b, native, target).len() as int,
    )
}

/// Concatenation of a list of batches.
pub open spec fn joined(bs: Seq<Seq<i16>>) -> Seq<i16>
    decreases bs.len(),
{
    if bs.len() == 0 {
        Seq::empty()
    } else {
        joined(bs.drop_last()) + bs.last()
    }
}

/// Everything a fresh resampler emits when fed the batches `bs` in order.
pub open spec fn streamed(bs: Seq<Seq<i16>>, native: nat, target: nat) -> Seq<i16>
    decreases bs.len(),
{
    if bs.len() == 0 {
        Seq::empty()
    } else {
        streamed(bs.drop_last(), native, target) + emitted(
            joined(bs.drop_last()),
            bs.last(),
            native,
            target,
        )
    }
}

pub struct StreamingResampler {
    native_rate: u32,
    target_rate: u32,
    primed: bool,
    prev: i16,
    phase: u64,
    history: Ghost<Seq<i16>>,
}

impl StreamingResampler {
    pub closed spec fn native(&self) -> nat {
        self.native_rate as nat
    }

    pub closed spec fn target(&self) -> nat {
        self.target_rate as nat
    }

    /// All samples fed so far.
    pub closed spec fn history(&self) -> Seq<i16> {
        self.history@
    }

    /// All samples emitted so far.
    pub open spec fn output(&self) -> Seq<i16> {
        resample_seq(self.history(), self.native(), self.target())
    }

    pub closed spec fn wf(&self) -> bool {
        let n = self.native_rate as int;
        let t = self.target_rate as int;
        let len = self.history@.len();
        &&& n > 0
        &&& t > 0
        &&& self.primed == (len > 0)
        &&& len == 0 ==> self.phase == 0
        &&& len > 0 ==> {
            &&& self.prev == self.history@[len - 1]
            &&& self.phase as int == out_count(len, n as nat, t as nat) * n - (len - 1) * t
            &&& 0 < self.phase <= n
        }
    }

    pub fn new(native_rate: u32, target_rate: u32) -> (r: Self)
        requires
            native_rate > 0,
            target_rate > 0,
        ensures
            r.wf(),
            r.native() == native_rate,
            r.target() == target_rate,
            r.history() == Seq::<i16>::empty(),
    {
        StreamingResampler {
            native_rate,
            target_rate,
            primed: false,
            prev: 0,
            phase: 0,
            history: Ghost(Seq::empty()),
        }
    }

    pub fn native_rate(&self) -> (r: u32)
        ensures
            r == self.native(),
    {
        self.native_rate
    }

    pub fn target_rate(&self) -> (r: u32)
        ensures
            r == self.target(),
    {
        self.target_rate
    }

    /// Sample `i` of the window made of the carried-over sample (if any)
    /// followed by `batch`.
    fn window_at(&self, batch: &[i16], i: u128) -> (r: i16)
        requires
            self.wf(),
            i < batch@.len() + (if self.primed { 1int } else { 0int }),
        ensures
            r == (self.history() + batch@)[(if self.primed { self.history().len() - 1 } else {
                0int
            }) + i],
    {
        if self.primed {
            if i == 0 {
                self.prev
            } else {
                batch[(i - 1) as usize]
            }
        } else {
            batch[i as usize]
        }
    }

    /// Resamples the next batch of the session.
    pub fn resample(&mut self, batch: &[i16]) -> (r: Vec<i16>)
        requires
            old(self).wf(),
        ensures
            final(self).wf(),
            final(self).native() == old(self).native(),
            final(self).target() == old(self).target(),
            final(self).history() == old(self).history() + batch@,
            r@ == emitted(old(self).history(), batch@, old(self).native(), old(self).target()),
            final(self).output() == old(self).output() + r@,
            old(self).native() == old(self).target() ==> r@ == batch@,
    {
        let ghost h0 = self.history@;
        let ghost h1 = h0 + batch@;
        let ghost nn = self.native_rate as int;
        let ghost tt = self.target_rate as int;
        let ghost k0 = out_count(h0.len(), nn as nat, tt as nat) as int;
        let ghost g0: int = if self.primed { h0.len() - 1 } else { 0 };
        let n: u128 = self.native_rate as u128;
        let t: u128 = self.target_rate as u128;
        let mw: u128 = batch.len() as u128 + if self.primed { 1u128 } else { 0u128 };
        let mut out: Vec<i16> = Vec::new();
        if mw == 0 {
            proof {
                assert(h1 =~= h0);
                assert(out@ =~= emitted(h0, batch@, nn as nat, tt as nat));
            }
            return out;
        }
        assert((mw - 1) * t <= 0x1_0000_0000_0000_0000 * 0x1_0000_0000) by (nonlinear_arith)
            requires
                1 <= mw <= 0x1_0000_0000_0000_0000,
                t <= 0x1_0000_0000,
        ;
        let limit: u128 = (mw - 1) * t;
        let mut pos: u128 = self.phase as u128;
        proof {
            assert(g0 + mw == h1.len());
            if self.primed {
                assert(pos == k0 * nn - g0 * tt);
                assert((k0 - 1) * nn == k0 * nn - nn) by (nonlinear_arith);
            } else {
                assert(k0 == 0);
                assert(pos == k0 * nn - g0 * tt);
            }
        }
        while pos <= limit
            invariant
                self.wf(),
                self.history@ == h0,
                nn == n,
                tt == t,
                0 < n <= u32::MAX,
                0 < t <= u32::MAX,
                g0 + mw == h1.len(),
                g0 >= 0,
                h1 == h0 + batch@,
                g0 == (if self.primed { h0.len() - 1 } else { 0int }),
                mw == batch@.len() + (if self.primed { 1int } else { 0int }),
                limit == (mw - 1) * t,
                limit <= 0x1_0000_0000_0000_0000 * 0x1_0000_0000,
                pos == (k0 + out@.len()) * nn - g0 * tt,
                pos > 0 || out@.len() == 0,
                (k0 - 1) * nn <= (h0.len() - 1) * tt || h0.len() == 0,
                out@.len() > 0 ==> pos - nn <= limit,
                pos <= limit + n,
                forall|j: int|
                    0 <= j < out@.len() ==> #[trigger] out@[j] == sample_at_pos(
                        h1,
                        (k0 + j) * nn,
                        tt,
                    ),
            decreases limit + n - pos,
        {
            let i: u128 = pos / t;
            let f: u128 = pos % t;
            proof {
                lemma_fundamental_div_mod(pos as int, t as int);
                assert((g0 + i) * tt == g0 * tt + i * tt) by (nonlinear_arith);
                assert(0 <= f < t);
                assert(pos == i * t + f) by (nonlinear_arith)
                    requires
                        pos == t * i + f,
                ;
                lemma_fundamental_div_mod_converse(
                    (k0 + out@.len()) * nn,
                    tt,
                    g0 + i,
                    f as int,
                );
                assert(i * t <= limit) by (nonlinear_arith)
                    requires
                        pos == i * t + f,
                        pos <= limit,
                        f >= 0,
                ;
                assert(i < mw) by (nonlinear_arith)
                    requires
                        i * t <= (mw - 1) * t,
                        t > 0,
                ;
            }
            let a = self.window_at(batch, i);
            let v: i16 = if f == 0 {
                a
            } else {
                proof {
                    assert(i + 1 < mw) by (nonlinear_arith)
                        requires
                            i * t + f <= (mw - 1) * t,
                            f > 0,
                            t > 0,
                    ;
                }
                let b = self.window_at(batch, i + 1);
                blend_exec(a, b, f as u64, t as u64)
            };
            out.push(v);
            proof {
                assert((k0 + out@.len()) * nn == (k0 + out@.len() - 1) * nn + nn) by (nonlinear_arith);
            }
            pos = pos + n;
        }
        let ghost k1 = k0 + out@.len();
        proof {
            assert(limit + g0 * tt == (h1.len() - 1) * tt) by (nonlinear_arith)
                requires
                    limit == (mw - 1) * tt,
                    g0 + mw == h1.len(),
            ;
            assert((k1 - 1) * nn == k1 * nn - nn) by (nonlinear_arith);
            assert((k1 - 1) * nn <= (h1.len() - 1) * tt) by {
                if out@.len() > 0 {
                    assert(pos - nn <= limit);
                    assert((k1 - 1) * nn == pos - nn + g0 * tt) by (nonlinear_arith)
                        requires
                            pos == k1 * nn - g0 * tt,
                    ;
                    assert(limit + g0 * tt == (h1.len() - 1) * tt) by (nonlinear_arith)
                        requires
                            limit == (mw - 1) * tt,
                            g0 + mw == h1.len(),
                    ;
                } else if h0.len() > 0 {
                    assert((h0.len() - 1) * tt <= (h1.len() - 1) * tt) by (nonlinear_arith)
                        requires
                            h0.len() <= h1.len(),
                            tt > 0,
                    ;
                } else {
                    assert(k1 == 0);
                    assert(0 <= (h1.len() - 1) * tt) by (nonlinear_arith)
                        requires
                            h1.len() >= 1,
                            tt > 0,
                    ;
                }
            }
            assert((h1.len() - 1) * tt < k1 * nn) by (nonlinear_arith)
                requires
                    pos > limit,
                    pos == k1 * nn - g0 * tt,
                    limit == (mw - 1) * tt,
                    g0 + mw == h1.len(),
            ;
            lemma_count_exact(h1.len(), nn as nat, tt as nat, k1);
            lemma_prefix(h0, batch@, nn as nat, tt as nat);
            assert(out@ =~= emitted(h0, batch@, nn as nat, tt as nat));
        }
        self.phase = (pos - limit) as u64;
        if batch.len() > 0 {
            self.prev = batch[batch.len() - 1];
        }
        self.primed = true;
        self.history = Ghost(h1);
        proof {
            if nn == tt {
                lemma_same_rate_identity(h0, nn as nat);
                lemma_same_rate_identity(h1, nn as nat);
                assert(out@ =~= batch@);
            }
            assert(resample_seq(h1, nn as nat, tt as nat) =~= resample_seq(h0, nn as nat, tt as nat)
                + out@);
        }
        out
    }
}

/// Executable form of `blend`.
fn blend_exec(a: i16, b: i16, f: u64, t: u64) -> (r: i16)
    requires
        0 < f < t,
        t <= u32::MAX,
    ensures
        r == blend(a, b, f as int, t as int),
{
    let ua: u64 = (a as i32 + PCM_OFFSET) as u64;
    let ub: u64 = (b as i32 + PCM_OFFSET) as u64;
    assert(ua * (t - f) <= 65535 * (t - f)) by (nonlinear_arith)
        requires
            ua <= 65535,
            f < t,
    ;
    assert(ub * f <= 65535 * f) by (nonlinear_arith)
        requires
            ub <= 65535,
    ;
    assert(65535 * (t - f) + 65535 * f == 65535 * t) by (nonlinear_arith);
    assert(65535 * t <= 65535 * 0x1_0000_0000) by (nonlinear_arith)
        requires
            t <= u32::MAX,
    ;
    let num: u64 = ua * (t - f) + ub * f;
    let q: u64 = num / t;
    assert(q <= 65535) by (nonlinear_arith)
        requires
            num <= 65535 * t,
            q == num / t,
            t > 0,
    ;
    (q as i32 - PCM_OFFSET) as i16
}

/// `out_count(len)` is the one `k` with `(k - 1) * native <= (len - 1) * target < k * native`.
pub proof fn lemma_count_exact(len: nat, native: nat, target: nat, k: int)
    requires
        native > 0,
        len > 0,
        (k - 1) * native <= (len - 1) * target < k * native,
    ensures
        out_count(len, native, target) == k,
{
    let x = (len - 1) * target;
    let r = x - (k - 1) * native;
    assert(r < native) by (nonlinear_arith)
        requires
            x < k * native,
            r == x - (k - 1) * native,
    ;
    lemma_fundamental_div_mod_converse(x, native as int, k - 1, r);
}

/// Every output sample reads the input only at or before its position:
/// feeding more input never changes what was already emitted.
pub proof fn lemma_prefix(h: Seq<i16>, b: Seq<i16>, native: nat, target: nat)
    requires
        native > 0,
        target > 0,
    ensures
        resample_seq(h, native, target).len() <= resample_seq(h + b, native, target).len(),
        resample_seq(h, native, target) == resample_seq(h + b, native, target).subrange(
            0,
            resample_seq(h, native, target).len() as int,
        ),
{
    let s0 = resample_seq(h, native, target);
    let s1 = resample_seq(h + b, native, target);
    if h.len() > 0 {
        assert((h.len() - 1) * target <= (h.len() + b.len() - 1) * target) by (nonlinear_arith)
            requires
                target > 0,
        ;
        vstd::arithmetic::div_mod::lemma_div_is_ordered(
            (h.len() - 1) * target,
            (h.len() + b.len() - 1) * target,
            native as int,
        );
    }
    assert forall|k: int| 0 <= k < s0.len() implies s0[k] == s1[k] by {
        let pos = k * native;
        let i = pos / target as int;
        let f = pos % target as int;
        lemma_fundamental_div_mod(pos, target as int);
        assert(k <= ((h.len() - 1) * target) / native as int);
        lemma_fundamental_div_mod((h.len() - 1) * target, native as int);
        assert(k * native <= (h.len() - 1) * target) by (nonlinear_arith)
            requires
                k <= ((h.len() - 1) * target) / native as int,
                ((h.len() - 1) * target) / native as int * native <= (h.len() - 1) * target,
                native > 0,
                k >= 0,
        ;
        assert(0 <= i < h.len()) by (nonlinear_arith)
            requires
                pos == i * target + f,
                0 <= f < target,
                pos <= (h.len() - 1) * target,
                pos >= 0,
                target > 0,
        ;
        if f != 0 {
            assert(i + 1 < h.len()) by (nonlinear_arith)
                requires
                    pos == i * target + f,
                    0 < f,
                    pos <= (h.len() - 1) * target,
                    target > 0,
            ;
        }
    }
    assert(s0 =~= s1.subrange(0, s0.len() as int));
}

/// Resampling a signal to its own rate returns it unchanged.
pub proof fn lemma_same_rate_identity(s: Seq<i16>, rate: nat)
    requires
        rate > 0,
    ensures
        resample_seq(s, rate, rate) == s,
{
    if s.len() > 0 {
        lemma_div_multiples_vanish((s.len() - 1) as int, rate as int);
        assert(((s.len() - 1) * rate) / rate as int == s.len() - 1) by {
            assert((s.len() - 1) * rate == rate * (s.len() - 1)) by (nonlinear_arith);
        }
    }
    assert forall|k: int| 0 <= k < s.len() implies #[trigger] sample_at_pos(s, k * rate, rate as int)
        == s[k] by {
        lemma_div_multiples_vanish(k, rate as int);
        lemma_mod_multiples_vanish(k, 0, rate as int);
        assert(k * rate == rate * k) by (nonlinear_arith);
        assert(0int % rate as int == 0);
        assert(rate * k + 0 == rate * k);
    }
    assert(resample_seq(s, rate, rate) =~= s);
}

/// Output length: `len` input samples yield `out_count` outputs with
/// `(len - 1) * target < out_count * native <= (len - 1) * target + native`;
/// when downsampling this is within one sample of `len * target / native`.
pub proof fn lemma_output_length(len: nat, native: nat, target: nat)
    requires
        native > 0,
        len > 0,
    ensures
        (len - 1) * target < out_count(len, native, target) * native,
        out_count(len, native, target) * native <= (len - 1) * target + native,
        target <= native ==> len * target - native <= out_count(len, native, target) * native,
        out_count(len, native, target) * native <= len * target + native,
{
    let x = (len - 1) * target;
    let q = x / native as int;
    lemma_fundamental_div_mod(x, native as int);
    assert(0 <= x % (native as int) < native);
    assert((q + 1) * native == native * q + native) by (nonlinear_arith);
    assert(len * target == x + target) by (nonlinear_arith)
        requires
            x == (len - 1) * target,
            len > 0,
    ;
}

/// Splitting a session's input into batches at any boundaries yields, in
/// total, exactly the resampling of the whole concatenated input.
pub proof fn lemma_streamed_is_whole(bs: Seq<Seq<i16>>, native: nat, target: nat)
    requires
        native > 0,
        target > 0,
    ensures
        streamed(bs, native, target) == resample_seq(joined(bs), native, target),
    decreases bs.len(),
{
    if bs.len() == 0 {
        assert(resample_seq(Seq::<i16>::empty(), native, target) =~= Seq::<i16>::empty());
    } else {
        let h = joined(bs.drop_last());
        lemma_streamed_is_whole(bs.drop_last(), native, target);
        lemma_prefix(h, bs.last(), native, target);
        let whole = resample_seq(h + bs.last(), native, target);
        let head = resample_seq(h, native, target);
        assert(whole =~= head + whole.subrange(head.len() as int, whole.len() as int));
    }
}

/// Two batchings of the same input produce the same output.
pub proof fn lemma_batching_invariant(
    xs: Seq<Seq<i16>>,
    ys: Seq<Seq<i16>>,
    native: nat,
    target: nat,
)
    requires
        native > 0,
        target > 0,
        joined(xs) == joined(ys),
    ensures
        streamed(xs, native, target) == streamed(ys, native, target),
{
    lemma_streamed_is_whole(xs, native, target);
    lemma_streamed_is_whole(ys, native, target);
}

/// A constant input resamples to the same constant.
pub proof fn lemma_constant_preserved(s: Seq<i16>, c: i16, native: nat, target: nat)
    requires
        native > 0,
        target > 0,
        forall|j: int| 0 <= j < s.len() ==> s[j] == c,
    ensures
        forall|k: int|
            0 <= k < resample_seq(s, native, target).len() ==> #[trigger] resample_seq(
                s,
                native,
                target,
            )[k] == c,
{
    assert forall|k: int| 0 <= k < resample_seq(s, native, target).len() implies #[trigger] resample_seq(
        s,
        native,
        target,
    )[k] == c by {
        let pos = k * native;
        let t = target as int;
        let i = pos / t;
        let f = pos % t;
        lemma_prefix(s, Seq::empty(), native, target);
        lemma_fundamental_div_mod(pos, t);
        lemma_fundamental_div_mod((s.len() - 1) * target, native as int);
        assert(k * native <= (s.len() - 1) * target) by (nonlinear_arith)
            requires
                k <= ((s.len() - 1) * target) / native as int,
                ((s.len() - 1) * target) / native as int * native <= (s.len() - 1) * target,
                native > 0,
                k >= 0,
        ;
        assert(pos == i * t + f) by (nonlinear_arith)
            requires
                pos == t * (pos / t) + pos % t,
                i == pos / t,
                f == pos % t,
        ;
        assert(0 <= i < s.len()) by (nonlinear_arith)
            requires
                pos == i * t + f,
                0 <= f < t,
                pos <= (s.len() - 1) * target,
                pos >= 0,
                t > 0,
                t == target,
        ;
        if f != 0 {
            assert(i + 1 < s.len()) by (nonlinear_arith)
                requires
                    pos == i * t + f,
                    0 < f,
                    pos <= (s.len() - 1) * target,
                    t > 0,
                    t == target,
            ;
            let u = (c as int) + 32768;
            assert(u * (t - f) + u * f == u * t) by (nonlinear_arith);
            vstd::arithmetic::div_mod::lemma_div_multiples_vanish(u, t);
            assert(u * t == t * u) by (nonlinear_arith);
        }
    }
}

} // verus!
