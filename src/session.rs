//! Decisions of a capture session's life cycle and of its capture loop:
//! the stop protocol, the native-rate fallback after device negotiation, and
//! the buffer-overflow watermarks. The threads that act on them live with
//! the caller.
use vstd::prelude::*;

verus! {

/// Rate assumed when device negotiation fails or does not answer in time.
pub const FALLBACK_SAMPLE_RATE: u32 = 44100;

/// Consecutive overflowing pushes at which a warning is due.
pub const OVERFLOW_WARN_AT: u32 = 25;

/// Consecutive overflowing pushes beyond which capture stops.
pub const OVERFLOW_STOP_AFTER: u32 = 50;

/// Seconds the starter waits for the capture thread's negotiation result.
pub const INIT_TIMEOUT_SECS: u64 = 5;

/// Samples the capture ring holds.
pub const RING_CAPACITY: usize = 131072;

/// What the one-shot init channel delivered.
#[derive(Clone, Copy, PartialEq, Eq, Debug, Structural)]
pub enum InitOutcome {
    /// The device was opened at this native rate.
    Ready(u32),
    /// Negotiation failed.
    Failed,
    /// No answer within the timeout, or the channel closed.
    TimedOut,
}

pub open spec fn rate_for(o: InitOutcome) -> u32 {
    match o {
        InitOutcome::Ready(r) => if r > 0 {
            r
        } else {
            FALLBACK_SAMPLE_RATE
        },
        _ => FALLBACK_SAMPLE_RATE,
    }
}

/// The native rate a session runs at: the negotiated one, or the fallback.
pub fn negotiated_rate(o: InitOutcome) -> (r: u32)
    ensures
        r == rate_for(o),
        r > 0,
{
    match o {
        InitOutcome::Ready(r) => if r > 0 {
            r
        } else {
            FALLBACK_SAMPLE_RATE
        },
        _ => FALLBACK_SAMPLE_RATE,
    }
}

/// What the capture loop does after a push into the ring.
#[derive(Clone, Copy, PartialEq, Eq, Debug, Structural)]
pub enum OverflowVerdict {
    Continue,
    Warn,
    Stop,
}

/// Counts consecutive pushes that did not fit in the ring.
pub struct OverflowMonitor {
    consecutive_drops: u32,
}

impl OverflowMonitor {
    pub closed spec fn drops(&self) -> nat {
        self.consecutive_drops as nat
    }

    pub fn new() -> (r: Self)
        ensures
            r.drops() == 0,
    {
        OverflowMonitor { consecutive_drops: 0 }
    }

    pub fn consecutive_drops(&self) -> (r: u32)
        ensures
            r == self.drops(),
    {
        self.consecutive_drops
    }

    /// Records a push of `requested` samples of which `pushed` were stored.
    /// A full push resets the count; a short one extends it, warns when it
    /// reaches the low watermark and stops past the high one.
    pub fn record_push(&mut self, pushed: usize, requested: usize) -> (r: OverflowVerdict)
        ensures
            pushed >= requested ==> final(self).drops() == 0 && r == OverflowVerdict::Continue,
            pushed < requested ==> {
                &&& final(self).drops() == if old(self).drops() < u32::MAX {
                    old(self).drops() + 1
                } else {
                    old(self).drops()
                }
                &&& (r == OverflowVerdict::Stop) == (final(self).drops() > OVERFLOW_STOP_AFTER)
                &&& (r == OverflowVerdict::Warn) == (final(self).drops() == OVERFLOW_WARN_AT)
            },
    {
        if pushed >= requested {
            self.consecutive_drops = 0;
            return OverflowVerdict::Continue;
        }
        if self.consecutive_drops < u32::MAX {
            self.consecutive_drops = self.consecutive_drops + 1;
        }
        if self.consecutive_drops > OVERFLOW_STOP_AFTER {
            OverflowVerdict::Stop
        } else if self.consecutive_drops == OVERFLOW_WARN_AT {
            OverflowVerdict::Warn
        } else {
            OverflowVerdict::Continue
        }
    }
}

/// The stop signal and worker bookkeeping of one capture session.
#[derive(Clone, Copy, PartialEq, Eq, Debug, Structural)]
pub struct SessionControl {
    running: bool,
    stop_requested: bool,
}

/// `stop` on a session state: the next state, and whether a worker must be joined.
pub open spec fn stop_model(running: bool, stop_requested: bool) -> (bool, bool, bool) {
    (false, true, running)
}

impl SessionControl {
    pub closed spec fn running(&self) -> bool {
        self.running
    }

    pub closed spec fn stop_requested(&self) -> bool {
        self.stop_requested
    }

    pub fn new() -> (r: Self)
        ensures
            !r.running(),
            !r.stop_requested(),
    {
        SessionControl { running: false, stop_requested: false }
    }

    /// Clears the stop signal and marks a DSP worker as running.
    pub fn start(&mut self)
        requires
            !old(self).running(),
        ensures
            final(self).running(),
            !final(self).stop_requested(),
    {
        self.stop_requested = false;
        self.running = true;
    }

    /// Raises the stop signal; returns whether a worker is left to join.
    pub fn stop(&mut self) -> (join: bool)
        ensures
            (final(self).running(), final(self).stop_requested(), join) == stop_model(
                old(self).running(),
                old(self).stop_requested(),
            ),
    {
        let join = self.running;
        self.stop_requested = true;
        self.running = false;
        join
    }

    pub fn is_running(&self) -> (r: bool)
        ensures
            r == self.running(),
    {
        self.running
    }

    /// Whether the DSP worker may go on and deliver frames.
    pub fn delivery_allowed(&self) -> (r: bool)
        ensures
            r == !self.stop_requested(),
    {
        !self.stop_requested
    }
}

/// Stopping twice: the second stop has no worker to join, changes nothing,
/// and delivery stays off after either.
pub proof fn lemma_stop_idempotent(running: bool, stop_requested: bool)
    ensures
        ({
            let (r1, s1, j1) = stop_model(running, stop_requested);
            let (r2, s2, j2) = stop_model(r1, s1);
            &&& !j2
            &&& r2 == r1
            &&& s2 == s1
            &&& s1 && s2
            &&& !r1
        }),
{
}

} // verus!
