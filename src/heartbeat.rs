//! The presence heartbeat: while an exchange waits on the model, a
//! "typing" or "recording voice" signal is repeated at a fixed interval,
//! and it stops for good once cancelled.
//!
//! The timer lives with the caller; on each period it asks `tick` whether
//! to emit, so what it emits is decided here.

use vstd::prelude::*;

verus! {

/// The period of the heartbeat, in milliseconds.
pub const HEARTBEAT_INTERVAL_MS: u64 = 3000;

/// The presence signal shown to the user.
#[derive(Clone, Copy, Debug, PartialEq, Eq, Structural)]
pub enum PresenceKind {
    Typing,
    RecordVoice,
}

/// Where a heartbeat is in its life.
#[derive(Clone, Copy, Debug, PartialEq, Eq, Structural)]
pub enum Phase {
    Idle,
    Running,
    Cancelled,
}

/// The signal for an exchange: recording where the reply will be spoken,
/// typing otherwise.
pub open spec fn spec_presence_for(voice: bool) -> PresenceKind {
    if voice {
        PresenceKind::RecordVoice
    } else {
        PresenceKind::Typing
    }
}

/// The signal for an exchange whose reply is spoken where `voice` holds.
pub fn presence_for(voice: bool) -> (r: PresenceKind)
    ensures
        r == spec_presence_for(voice),
{
    if voice {
        PresenceKind::RecordVoice
    } else {
        PresenceKind::Typing
    }
}

/// One exchange's heartbeat. The signal is fixed when it is made.
#[derive(Clone, Copy, Debug, PartialEq, Eq, Structural)]
pub struct Heartbeat {
    pub phase: Phase,
    pub kind: PresenceKind,
    pub interval_ms: u64,
}

/// Starting moves an idle heartbeat to running and leaves any other alone.
pub open spec fn started(h: Heartbeat) -> Heartbeat {
    if h.phase == Phase::Idle {
        Heartbeat { phase: Phase::Running, ..h }
    } else {
        h
    }
}

/// Cancelling ends the heartbeat, from any phase.
pub open spec fn cancelled(h: Heartbeat) -> Heartbeat {
    Heartbeat { phase: Phase::Cancelled, ..h }
}

/// What one period emits: the signal while running, nothing otherwise.
pub open spec fn emitted(h: Heartbeat) -> Option<PresenceKind> {
    if h.phase == Phase::Running {
        Some(h.kind)
    } else {
        None
    }
}

/// How many of the next `n` periods emit a signal; a tick leaves the
/// heartbeat as it is.
pub open spec fn emissions(h: Heartbeat, n: nat) -> nat
    decreases n,
{
    if n == 0 {
        0
    } else {
        emissions(h, (n - 1) as nat) + if emitted(h) is Some {
            1nat
        } else {
            0nat
        }
    }
}

impl Heartbeat {
    /// An idle heartbeat for an exchange whose reply is spoken where `voice`
    /// holds.
    pub fn new(voice: bool) -> (r: Heartbeat)
        ensures
            r.phase == Phase::Idle,
            r.kind == spec_presence_for(voice),
            r.interval_ms == HEARTBEAT_INTERVAL_MS,
    {
        Heartbeat { phase: Phase::Idle, kind: presence_for(voice), interval_ms: HEARTBEAT_INTERVAL_MS }
    }

    /// Idle to running.
    pub fn start(&mut self)
        ensures
            *final(self) == started(*old(self)),
    {
        if self.phase == Phase::Idle {
            self.phase = Phase::Running;
        }
    }

    /// The signal to emit for the period that just ended, if any.
    pub fn tick(&self) -> (r: Option<PresenceKind>)
        ensures
            r == emitted(*self),
    {
        if self.phase == Phase::Running {
            Some(self.kind)
        } else {
            None
        }
    }

    /// Stops the heartbeat; a second call changes nothing.
    pub fn cancel(&mut self)
        ensures
            *final(self) == cancelled(*old(self)),
    {
        self.phase = Phase::Cancelled;
    }

    /// Whether the heartbeat may still emit.
    pub fn is_active(&self) -> (r: bool)
        ensures
            r == (self.phase == Phase::Running),
    {
        self.phase == Phase::Running
    }
}

/// Once cancelled, a heartbeat emits nothing however many periods pass,
/// and cancelling it again leaves it as it was.
pub proof fn no_tick_after_cancel(h: Heartbeat, n: nat)
    ensures
        emissions(cancelled(h), n) == 0,
        cancelled(cancelled(h)) == cancelled(h),
        started(cancelled(h)) == cancelled(h),
    decreases n,
{
    if n > 0 {
        no_tick_after_cancel(h, (n - 1) as nat);
    }
}

/// A running heartbeat emits its signal on every one of `n` periods.
pub proof fn running_emits_every_period(h: Heartbeat, n: nat)
    requires
        h.phase == Phase::Running,
    ensures
        emissions(h, n) == n,
    decreases n,
{
    if n > 0 {
        running_emits_every_period(h, (n - 1) as nat);
    }
}

} // verus!
