//! Frame assembly and the DSP step: resampled samples are gathered into
//! fixed-size frames, each frame is routed by the suppressor, and the
//! payloads to deliver are handed back in frame order.
use vstd::prelude::*;
use crate::pcm::copy_samples;
use crate::resampler::{emitted, StreamingResampler};
use crate::suppression::{
    generate_silence_frame, is_loud, step, ActionKind, FrameAction, SilenceSuppressionConfig,
    SilenceSuppressor, VoiceState,
};

verus! {

/// Samples per delivered frame: 20 ms at 16 kHz.
pub const FRAME_SAMPLES: usize = 320;

/// Output rate of every capture session.
pub const TARGET_SAMPLE_RATE: u32 = 16000;

/// Most raw samples drained from the ring per DSP iteration.
pub const DSP_BATCH_MAX: usize = 480;

/// Sleep of the DSP loop when no full frame is available.
pub const DSP_POLL_MS: u64 = 5;

/// Accumulates samples and hands them out in whole frames, oldest first.
pub struct FrameAssembler {
    pending: Vec<i16>,
}

impl FrameAssembler {
    pub closed spec fn pending(&self) -> Seq<i16> {
        self.pending@
    }

    pub fn new() -> (r: Self)
        ensures
            r.pending() == Seq::<i16>::empty(),
    {
        FrameAssembler { pending: Vec::new() }
    }

    pub fn pending_len(&self) -> (r: usize)
        ensures
            r == self.pending().len(),
    {
        self.pending.len()
    }

    pub fn push_samples(&mut self, samples: &[i16])
        ensures
            final(self).pending() == old(self).pending() + samples@,
    {
        let mut i: usize = 0;
        while i < samples.len()
            invariant
                i <= samples@.len(),
                self.pending() == old(self).pending() + samples@.subrange(0, i as int),
            decreases samples@.len() - i,
        {
            self.pending.push(samples[i]);
            i = i + 1;
            proof {
                assert(self.pending() =~= old(self).pending() + samples@.subrange(0, i as int));
            }
        }
        assert(samples@.subrange(0, i as int) =~= samples@);
    }

    /// Removes and returns the oldest `FRAME_SAMPLES` samples when that many
    /// are pending; a shorter remainder stays pending.
    pub fn pop_frame(&mut self) -> (r: Option<Vec<i16>>)
        ensures
            r is Some <==> old(self).pending().len() >= FRAME_SAMPLES,
            r matches Some(f) ==> {
                &&& f@.len() == FRAME_SAMPLES
                &&& f@ == old(self).pending().subrange(0, FRAME_SAMPLES as int)
                &&& final(self).pending() == old(self).pending().subrange(
                    FRAME_SAMPLES as int,
                    old(self).pending().len() as int,
                )
            },
            r is None ==> final(self).pending() == old(self).pending(),
    {
        if self.pending.len() < FRAME_SAMPLES {
            return None;
        }
        let frame = copy_samples(&self.pending.as_slice()[0..FRAME_SAMPLES]);
        let len = self.pending.len();
        let rest = copy_samples(&self.pending.as_slice()[FRAME_SAMPLES..len]);
        self.pending = rest;
        Some(frame)
    }
}

/// The DSP state of one capture session: resampler, frame accumulator and
/// (when enabled) the suppressor. Owned by the DSP thread alone.
pub struct DspPipeline {
    resampler: StreamingResampler,
    assembler: FrameAssembler,
    suppressor: SilenceSuppressor,
    suppression_enabled: bool,
}

/// The concatenation of frames `0..k` of `s`.
pub open spec fn whole_frames(s: Seq<i16>, k: nat) -> Seq<i16> {
    s.subrange(0, (k * FRAME_SAMPLES) as int)
}

/// The first `k` whole frames of `s`.
pub open spec fn frames_of(s: Seq<i16>, k: nat) -> Seq<Seq<i16>> {
    Seq::new(k, |j: int| s.subrange(j * FRAME_SAMPLES, (j + 1) * FRAME_SAMPLES))
}

/// An all-zero frame.
pub open spec fn zero_frame() -> Seq<i16> {
    Seq::new(FRAME_SAMPLES as nat, |j: int| 0i16)
}

/// Routing `frames` through the suppressor from state `s0`: the final state
/// and the payloads delivered, in order.
pub open spec fn routed(
    cfg: SilenceSuppressionConfig,
    s0: VoiceState,
    frames: Seq<Seq<i16>>,
) -> (VoiceState, Seq<Seq<i16>>)
    decreases frames.len(),
{
    if frames.len() == 0 {
        (s0, Seq::empty())
    } else {
        let (s, out) = routed(cfg, s0, frames.drop_last());
        let f = frames.last();
        let (s1, kind) = step(
            cfg.hangover_frames,
            cfg.silence_mode,
            s,
            is_loud(f, cfg.rms_threshold as nat),
        );
        (
            s1,
            match kind {
                ActionKind::Send => out.push(f),
                ActionKind::SendSilence => out.push(zero_frame()),
                ActionKind::Suppress => out,
            },
        )
    }
}

impl DspPipeline {
    pub closed spec fn voice_state(&self) -> VoiceState {
        self.suppressor.state()
    }

    pub closed spec fn config(&self) -> SilenceSuppressionConfig {
        self.suppressor.config()
    }

    pub closed spec fn wf(&self) -> bool {
        &&& self.resampler.wf()
        &&& self.resampler.target() == TARGET_SAMPLE_RATE
        &&& self.assembler.pending().len() < FRAME_SAMPLES
    }

    pub closed spec fn pending(&self) -> Seq<i16> {
        self.assembler.pending()
    }

    pub closed spec fn native(&self) -> nat {
        self.resampler.native()
    }

    /// All raw samples fed so far.
    pub closed spec fn history(&self) -> Seq<i16> {
        self.resampler.history()
    }

    pub closed spec fn suppression_enabled(&self) -> bool {
        self.suppression_enabled
    }

    pub fn new(
        native_rate: u32,
        config: SilenceSuppressionConfig,
        suppression_enabled: bool,
    ) -> (r: Self)
        requires
            native_rate > 0,
        ensures
            r.wf(),
            r.native() == native_rate,
            r.history() == Seq::<i16>::empty(),
            r.pending() == Seq::<i16>::empty(),
            r.suppression_enabled() == suppression_enabled,
            r.config() == config,
            r.voice_state() == VoiceState::Silence,
    {
        DspPipeline {
            resampler: StreamingResampler::new(native_rate, TARGET_SAMPLE_RATE),
            assembler: FrameAssembler::new(),
            suppressor: SilenceSuppressor::new(config),
            suppression_enabled,
        }
    }

    /// One DSP iteration on a drained batch: resample it, cut every whole
    /// frame now available, and return the payloads to deliver, in order.
    /// Every payload is exactly one frame; the partial remainder stays
    /// pending. Without suppression the payloads are the frames themselves.
    pub fn process_batch(&mut self, raw: &[i16]) -> (r: Vec<Vec<i16>>)
        requires
            old(self).wf(),
        ensures
            final(self).wf(),
            final(self).native() == old(self).native(),
            final(self).suppression_enabled() == old(self).suppression_enabled(),
            final(self).config() == old(self).config(),
            !old(self).suppression_enabled() ==> final(self).voice_state() == old(
                self,
            ).voice_state(),
            final(self).history() == old(self).history() + raw@,
            ({
                let all = old(self).pending() + emitted(
                    old(self).history(),
                    raw@,
                    old(self).native(),
                    TARGET_SAMPLE_RATE as nat,
                );
                let k = (all.len() as int) / (FRAME_SAMPLES as int);
                &&& final(self).pending() == all.subrange(k * FRAME_SAMPLES, all.len() as int)
                &&& r@.len() <= k
                &&& forall|j: int| 0 <= j < r@.len() ==> (#[trigger] r@[j])@.len() == FRAME_SAMPLES
                &&& !old(self).suppression_enabled() ==> {
                    &&& r@.len() == k
                    &&& forall|j: int|
                        0 <= j < r@.len() ==> (#[trigger] r@[j])@ == all.subrange(
                            j * FRAME_SAMPLES,
                            (j + 1) * FRAME_SAMPLES,
                        )
                }
                &&& old(self).suppression_enabled() ==> (
                    final(self).voice_state(),
                    r@.map_values(|v: Vec<i16>| v@),
                ) == routed(old(self).config(), old(self).voice_state(), frames_of(all, k as nat))
            }),
    {
        let ghost all = self.assembler.pending() + emitted(
            self.resampler.history(),
            raw@,
            self.resampler.native(),
            TARGET_SAMPLE_RATE as nat,
        );
        let resampled = self.resampler.resample(raw);
        self.assembler.push_samples(resampled.as_slice());
        let mut out: Vec<Vec<i16>> = Vec::new();
        let ghost mut taken: int = 0;
        let ghost fs = FRAME_SAMPLES as int;
        loop
            invariant
                self.resampler.wf(),
                self.resampler.target() == TARGET_SAMPLE_RATE,
                self.resampler.native() == old(self).native(),
                self.resampler.history() == old(self).history() + raw@,
                self.suppression_enabled == old(self).suppression_enabled,
                self.suppressor.config() == old(self).suppressor.config(),
                !self.suppression_enabled ==> self.suppressor.state() == old(
                    self,
                ).suppressor.state(),
                self.suppression_enabled ==> (
                    self.suppressor.state(),
                    out@.map_values(|v: Vec<i16>| v@),
                ) == routed(
                    old(self).suppressor.config(),
                    old(self).suppressor.state(),
                    frames_of(all, taken as nat),
                ),
                fs == FRAME_SAMPLES,
                0 <= taken,
                taken * fs <= all.len(),
                self.assembler.pending() == all.subrange(taken * fs, all.len() as int),
                out@.len() <= taken,
                forall|j: int| 0 <= j < out@.len() ==> (#[trigger] out@[j])@.len() == FRAME_SAMPLES,
                !self.suppression_enabled ==> {
                    &&& out@.len() == taken
                    &&& forall|j: int|
                        0 <= j < out@.len() ==> (#[trigger] out@[j])@ == all.subrange(
                            j * fs,
                            (j + 1) * fs,
                        )
                },
            ensures
                taken == (all.len() as int) / fs,
                all.len() - taken * fs < fs,
            decreases self.assembler.pending().len(),
        {
            match self.assembler.pop_frame() {
                Some(frame) => {
                    proof {
                        assert((taken + 1) * fs == taken * fs + fs) by (nonlinear_arith);
                        assert(frame@ =~= all.subrange(taken * fs, (taken + 1) * fs));
                        assert(self.assembler.pending() =~= all.subrange(
                            (taken + 1) * fs,
                            all.len() as int,
                        ));
                    }
                    if self.suppression_enabled {
                        let ghost out0 = out@;
                        proof {
                            assert(frames_of(all, (taken + 1) as nat).drop_last() =~= frames_of(
                                all,
                                taken as nat,
                            ));
                            assert(frames_of(all, (taken + 1) as nat).last() == frame@);
                        }
                        match self.suppressor.process(frame.as_slice()) {
                            FrameAction::Send(audio) => {
                                out.push(audio);
                                proof {
                                    assert(out@.map_values(|v: Vec<i16>| v@) =~= out0.map_values(
                                        |v: Vec<i16>| v@,
                                    ).push(frame@));
                                }
                            },
                            FrameAction::SendSilence => {
                                let z = generate_silence_frame(FRAME_SAMPLES);
                                out.push(z);
                                proof {
                                    assert(z@ =~= zero_frame());
                                    assert(out@.map_values(|v: Vec<i16>| v@) =~= out0.map_values(
                                        |v: Vec<i16>| v@,
                                    ).push(zero_frame()));
                                }
                            },
                            FrameAction::Suppress => {},
                        }
                    } else {
                        out.push(frame);
                    }
                    proof {
                        taken = taken + 1;
                    }
                },
                None => {
                    proof {
                        let k = (all.len() as int) / fs;
                        vstd::arithmetic::div_mod::lemma_fundamental_div_mod(all.len() as int, fs);
                        assert(all.len() - taken * fs < fs);
                        assert(taken == k) by (nonlinear_arith)
                            requires
                                taken * fs <= all.len(),
                                all.len() - taken * fs < fs,
                                all.len() == fs * k + (all.len() as int) % fs,
                                0 <= (all.len() as int) % fs < fs,
                                fs > 0,
                        ;
                    }
                    break;
                },
            }
        }
        out
    }

    pub fn pending_len(&self) -> (r: usize)
        ensures
            r == self.pending().len(),
    {
        self.assembler.pending_len()
    }
}

} // verus!
