//! Per-frame silence suppression: an energy test against a per-source
//! threshold, followed by a Voice / Hangover / Silence state machine that
//! keeps sending for a bounded number of quiet frames after speech ends.
use vstd::prelude::*;
use crate::pcm::copy_samples;

verus! {

/// Where the suppressor stands between frames.
#[derive(Clone, Copy, PartialEq, Eq, Debug, Structural)]
pub enum VoiceState {
    Silence,
    Voice,
    /// Speech just ended; this many more quiet frames will still be sent.
    Hangover(u32),
}

/// What is done with frames once the hangover is spent.
#[derive(Clone, Copy, PartialEq, Eq, Debug, Structural)]
pub enum SilenceMode {
    /// Send an all-zero frame, keeping the downstream frame cadence.
    SendSilence,
    /// Send nothing.
    Suppress,
}

/// The kind of an action, without its payload.
#[derive(Clone, Copy, PartialEq, Eq, Debug, Structural)]
pub enum ActionKind {
    Send,
    SendSilence,
    Suppress,
}

/// The routing decision for one frame.
#[derive(Debug)]
pub enum FrameAction {
    Send(Vec<i16>),
    SendSilence,
    Suppress,
}

impl FrameAction {
    pub open spec fn kind(&self) -> ActionKind {
        match self {
            FrameAction::Send(_) => ActionKind::Send,
            FrameAction::SendSilence => ActionKind::SendSilence,
            FrameAction::Suppress => ActionKind::Suppress,
        }
    }
}

#[derive(Clone, Copy, PartialEq, Eq, Debug, Structural)]
pub struct SilenceSuppressionConfig {
    /// A frame whose RMS level (in PCM units) exceeds this is voice.
    pub rms_threshold: u32,
    /// Quiet frames still sent after voice ends.
    pub hangover_frames: u32,
    pub silence_mode: SilenceMode,
}

pub const MIC_RMS_THRESHOLD: u32 = 150;
pub const MIC_HANGOVER_FRAMES: u32 = 15;
pub const SYSTEM_RMS_THRESHOLD: u32 = 50;
pub const SYSTEM_HANGOVER_FRAMES: u32 = 25;

impl SilenceSuppressionConfig {
    pub fn for_microphone() -> (r: Self)
        ensures
            r.rms_threshold == MIC_RMS_THRESHOLD,
            r.hangover_frames == MIC_HANGOVER_FRAMES,
            r.silence_mode == SilenceMode::SendSilence,
    {
        SilenceSuppressionConfig {
            rms_threshold: MIC_RMS_THRESHOLD,
            hangover_frames: MIC_HANGOVER_FRAMES,
            silence_mode: SilenceMode::SendSilence,
        }
    }

    /// Loopback audio is typically quieter: a lower threshold, a longer hold.
    pub fn for_system_audio() -> (r: Self)
        ensures
            r.rms_threshold == SYSTEM_RMS_THRESHOLD,
            r.hangover_frames == SYSTEM_HANGOVER_FRAMES,
            r.silence_mode == SilenceMode::SendSilence,
    {
        SilenceSuppressionConfig {
            rms_threshold: SYSTEM_RMS_THRESHOLD,
            hangover_frames: SYSTEM_HANGOVER_FRAMES,
            silence_mode: SilenceMode::SendSilence,
        }
    }
}

/// Sum of the squares of the samples.
pub open spec fn sum_sq(s: Seq<i16>) -> int
    decreases s.len(),
{
    if s.len() == 0 {
        0
    } else {
        sum_sq(s.drop_last()) + (s.last() as int) * (s.last() as int)
    }
}

/// The frame's RMS level exceeds `threshold` (compared without a root:
/// `sum(x^2) > threshold^2 * len`).
pub open spec fn is_loud(frame: Seq<i16>, threshold: nat) -> bool {
    sum_sq(frame) > threshold * threshold * frame.len()
}

pub open spec fn quiet_action(mode: SilenceMode) -> ActionKind {
    match mode {
        SilenceMode::SendSilence => ActionKind::SendSilence,
        SilenceMode::Suppress => ActionKind::Suppress,
    }
}

/// One transition of the state machine.
pub open spec fn step(hang: u32, mode: SilenceMode, s: VoiceState, loud: bool) -> (
    VoiceState,
    ActionKind,
) {
    if loud {
        (VoiceState::Voice, ActionKind::Send)
    } else {
        match s {
            VoiceState::Silence => (VoiceState::Silence, quiet_action(mode)),
            VoiceState::Voice => if hang == 0 {
                (VoiceState::Silence, quiet_action(mode))
            } else {
                (VoiceState::Hangover((hang - 1) as u32), ActionKind::Send)
            },
            VoiceState::Hangover(r) => if r == 0 {
                (VoiceState::Silence, quiet_action(mode))
            } else {
                (VoiceState::Hangover((r - 1) as u32), ActionKind::Send)
            },
        }
    }
}

/// The state after the first `j` frames, whose loudness is `louds`.
pub open spec fn state_at(
    hang: u32,
    mode: SilenceMode,
    s0: VoiceState,
    louds: Seq<bool>,
    j: nat,
) -> VoiceState
    decreases j,
{
    if j == 0 {
        s0
    } else {
        step(hang, mode, state_at(hang, mode, s0, louds, (j - 1) as nat), louds[j - 1]).0
    }
}

/// The action taken on frame `j`.
pub open spec fn action_at(
    hang: u32,
    mode: SilenceMode,
    s0: VoiceState,
    louds: Seq<bool>,
    j: nat,
) -> ActionKind {
    step(hang, mode, state_at(hang, mode, s0, louds, j), louds[j as int]).1
}

pub struct SilenceSuppressor {
    config: SilenceSuppressionConfig,
    state: VoiceState,
}

impl SilenceSuppressor {
    pub closed spec fn config(&self) -> SilenceSuppressionConfig {
        self.config
    }

    pub closed spec fn state(&self) -> VoiceState {
        self.state
    }

    pub fn new(config: SilenceSuppressionConfig) -> (r: Self)
        ensures
            r.config() == config,
            r.state() == VoiceState::Silence,
    {
        SilenceSuppressor { config, state: VoiceState::Silence }
    }

    pub fn current_state(&self) -> (r: VoiceState)
        ensures
            r == self.state(),
    {
        self.state
    }

    /// Classifies one frame and advances the state machine.
    pub fn process(&mut self, frame: &[i16]) -> (r: FrameAction)
        ensures
            final(self).config() == old(self).config(),
            (final(self).state(), r.kind()) == step(
                old(self).config().hangover_frames,
                old(self).config().silence_mode,
                old(self).state(),
                is_loud(frame@, old(self).config().rms_threshold as nat),
            ),
            r matches FrameAction::Send(a) ==> a@ == frame@,
    {
        let loud = frame_is_loud(frame, self.config.rms_threshold);
        let hang = self.config.hangover_frames;
        let (next, kind) = if loud {
            (VoiceState::Voice, ActionKind::Send)
        } else {
            match self.state {
                VoiceState::Silence => (VoiceState::Silence, quiet_kind(self.config.silence_mode)),
                VoiceState::Voice => if hang == 0 {
                    (VoiceState::Silence, quiet_kind(self.config.silence_mode))
                } else {
                    (VoiceState::Hangover(hang - 1), ActionKind::Send)
                },
                VoiceState::Hangover(r) => if r == 0 {
                    (VoiceState::Silence, quiet_kind(self.config.silence_mode))
                } else {
                    (VoiceState::Hangover(r - 1), ActionKind::Send)
                },
            }
        };
        self.state = next;
        match kind {
            ActionKind::Send => FrameAction::Send(copy_samples(frame)),
            ActionKind::SendSilence => FrameAction::SendSilence,
            ActionKind::Suppress => FrameAction::Suppress,
        }
    }
}

fn quiet_kind(mode: SilenceMode) -> (r: ActionKind)
    ensures
        r == quiet_action(mode),
{
    match mode {
        SilenceMode::SendSilence => ActionKind::SendSilence,
        SilenceMode::Suppress => ActionKind::Suppress,
    }
}

/// Energy test of one frame against an RMS threshold.
pub fn frame_is_loud(frame: &[i16], rms_threshold: u32) -> (r: bool)
    ensures
        r == is_loud(frame@, rms_threshold as nat),
{
    let mut acc: u128 = 0;
    let mut i: usize = 0;
    while i < frame.len()
        invariant
            0 <= i <= frame@.len(),
            acc == sum_sq(frame@.subrange(0, i as int)),
            acc <= i * 0x4000_0000,
        decreases frame@.len() - i,
    {
        let x: i32 = frame[i] as i32;
        assert(frame@.subrange(0, i + 1).drop_last() =~= frame@.subrange(0, i as int));
        assert(x * x <= 0x4000_0000) by (nonlinear_arith)
            requires
                -32768 <= x <= 32767,
        ;
        assert(x * x >= 0) by (nonlinear_arith);
        let sq: u128 = (x * x) as u128;
        acc = acc + sq;
        i = i + 1;
    }
    assert(frame@.subrange(0, i as int) =~= frame@);
    let thr: u128 = rms_threshold as u128;
    assert(thr * thr <= 0xffff_ffff_ffff_ffff) by (nonlinear_arith)
        requires
            thr <= 0xffff_ffff,
    ;
    let thr_sq: u128 = thr * thr;
    let len: u128 = frame.len() as u128;
    assert(thr_sq * len <= 0xffff_ffff_ffff_ffff * 0xffff_ffff_ffff_ffff) by (nonlinear_arith)
        requires
            thr_sq <= 0xffff_ffff_ffff_ffff,
            len <= 0xffff_ffff_ffff_ffff,
    ;
    acc > thr_sq * len
}

/// An all-zero frame of `len` samples.
pub fn generate_silence_frame(len: usize) -> (r: Vec<i16>)
    ensures
        r@.len() == len,
        forall|j: int| 0 <= j < len ==> r@[j] == 0,
{
    let mut v: Vec<i16> = Vec::with_capacity(len);
    let mut i: usize = 0;
    while i < len
        invariant
            i <= len,
            v@.len() == i,
            forall|j: int| 0 <= j < i ==> v@[j] == 0,
        decreases len - i,
    {
        v.push(0);
        i = i + 1;
    }
    v
}

/// A state that `step` enters as Silence was reached with a non-sending action.
proof fn lemma_silence_not_sent(hang: u32, mode: SilenceMode, s: VoiceState, loud: bool)
    ensures
        step(hang, mode, s, loud).0 == VoiceState::Silence ==> step(hang, mode, s, loud).1
            != ActionKind::Send,
{
}

/// From a fresh (silent) start: a Hangover(r) state at frame `j` was preceded
/// by `hang - r + 1` sent frames, and a Voice state by at least one.
proof fn lemma_history_of_state(hang: u32, mode: SilenceMode, louds: Seq<bool>, j: nat)
    requires
        j <= louds.len(),
    ensures
        state_at(hang, mode, VoiceState::Silence, louds, j) matches VoiceState::Hangover(r) ==> {
            &&& r < hang
            &&& j >= hang - r + 1
            &&& forall|x: nat|
                j - (hang - r) - 1 <= x < j ==> #[trigger] action_at(
                    hang,
                    mode,
                    VoiceState::Silence,
                    louds,
                    x,
                ) == ActionKind::Send
            &&& forall|x: int| j - (hang - r) <= x < j ==> !#[trigger] louds[x]
        },
        state_at(hang, mode, VoiceState::Silence, louds, j) == VoiceState::Voice ==> j >= 1
            && action_at(hang, mode, VoiceState::Silence, louds, (j - 1) as nat)
            == ActionKind::Send,
    decreases j,
{
    if j > 0 {
        let jp = (j - 1) as nat;
        lemma_history_of_state(hang, mode, louds, jp);
        let prev = state_at(hang, mode, VoiceState::Silence, louds, jp);
        let cur = state_at(hang, mode, VoiceState::Silence, louds, j);
        if let VoiceState::Hangover(r) = cur {
            assert(action_at(hang, mode, VoiceState::Silence, louds, jp) == ActionKind::Send);
            match prev {
                VoiceState::Voice => {
                    assert(r == hang - 1);
                    assert(!louds[jp as int]);
                    assert forall|x: nat| j - (hang - r) - 1 <= x < j implies #[trigger] action_at(
                        hang,
                        mode,
                        VoiceState::Silence,
                        louds,
                        x,
                    ) == ActionKind::Send by {
                        if x != jp {
                            assert(x == jp - 1);
                        }
                    }
                },
                VoiceState::Hangover(q) => {
                    assert(r == q - 1);
                    assert(!louds[jp as int]);
                },
                VoiceState::Silence => {
                    assert(false);
                },
            }
        }
    }
}

/// Hysteresis: from a fresh start, whenever the action stops being `Send`, it
/// had been `Send` for at least `hang + 1` consecutive frames, and that frame
/// and the `hang` frames before it were all quiet. So the switch away from
/// sending never follows the switch to sending by fewer than `hang + 1`
/// frames, and takes `hang + 1` quiet frames in a row, whatever the loudness
/// pattern.
pub proof fn lemma_hysteresis(hang: u32, mode: SilenceMode, louds: Seq<bool>, e: nat)
    requires
        1 <= e < louds.len(),
        action_at(hang, mode, VoiceState::Silence, louds, (e - 1) as nat) == ActionKind::Send,
        action_at(hang, mode, VoiceState::Silence, louds, e) != ActionKind::Send,
    ensures
        e >= hang + 1,
        forall|x: nat|
            e - hang - 1 <= x < e ==> #[trigger] action_at(
                hang,
                mode,
                VoiceState::Silence,
                louds,
                x,
            ) == ActionKind::Send,
        forall|x: int| e - hang <= x <= e ==> !#[trigger] louds[x],
{
    let ep = (e - 1) as nat;
    lemma_history_of_state(hang, mode, louds, e);
    lemma_silence_not_sent(
        hang,
        mode,
        state_at(hang, mode, VoiceState::Silence, louds, ep),
        louds[ep as int],
    );
    let cur = state_at(hang, mode, VoiceState::Silence, louds, e);
    match cur {
        VoiceState::Voice => {
            assert(hang == 0);
            assert forall|x: nat| e - hang - 1 <= x < e implies #[trigger] action_at(
                hang,
                mode,
                VoiceState::Silence,
                louds,
                x,
            ) == ActionKind::Send by {
                assert(x == ep);
            }
        },
        VoiceState::Hangover(r) => {
            assert(r == 0);
        },
        VoiceState::Silence => {
        },
    }
}

/// A constant frame at `level`, with `SYSTEM_RMS_THRESHOLD < |level| <= MIC_RMS_THRESHOLD`,
/// is voice to the system-audio profile and silence to the microphone profile.
pub proof fn lemma_profiles_differ(frame: Seq<i16>, level: i16)
    requires
        frame.len() > 0,
        forall|j: int| 0 <= j < frame.len() ==> frame[j] == level,
        SYSTEM_RMS_THRESHOLD < level <= MIC_RMS_THRESHOLD || -(MIC_RMS_THRESHOLD as int) <= level
            < -(SYSTEM_RMS_THRESHOLD as int),
    ensures
        is_loud(frame, SYSTEM_RMS_THRESHOLD as nat),
        !is_loud(frame, MIC_RMS_THRESHOLD as nat),
{
    lemma_sum_sq_constant(frame, level);
    let l = level as int;
    let n = frame.len() as int;
    assert(l * l > 50 * 50) by (nonlinear_arith)
        requires
            50 < l || l < -50,
    ;
    assert(l * l <= 150 * 150) by (nonlinear_arith)
        requires
            -150 <= l <= 150,
    ;
    assert(n * (l * l) > 50 * 50 * n) by (nonlinear_arith)
        requires
            l * l > 50 * 50,
            n > 0,
    ;
    assert(n * (l * l) <= 150 * 150 * n) by (nonlinear_arith)
        requires
            l * l <= 150 * 150,
            n > 0,
    ;
}

proof fn lemma_sum_sq_constant(frame: Seq<i16>, level: i16)
    requires
        forall|j: int| 0 <= j < frame.len() ==> frame[j] == level,
    ensures
        sum_sq(frame) == frame.len() * ((level as int) * (level as int)),
    decreases frame.len(),
{
    if frame.len() > 0 {
        lemma_sum_sq_constant(frame.drop_last(), level);
        let l = (level as int) * (level as int);
        assert((frame.len() - 1) * l + l == frame.len() * l) by (nonlinear_arith);
    }
}

} // verus!
