//! Timeouts and intervals: the flags that control them and the decision
//! each timer makes when it wakes.
//!
//! A timer's flags live in a `TimerRegistry`, shared between the handle that
//! the component holds and the task that waits for the timer. When the task
//! wakes it asks `timeout_step` or `interval_step` what to do.
use vstd::prelude::*;

verus! {

/// The control flags of one timer.
#[derive(Clone, Copy, Debug, PartialEq, Eq, Structural)]
pub struct TimerFlags {
    pub paused: bool,
    pub cancelled: bool,
}

/// The flags of every timer, indexed by timer number.
#[derive(Debug)]
pub struct TimerRegistry {
    pub timers: Vec<TimerFlags>,
}

/// What a timer does when it wakes.
#[derive(Clone, Copy, Debug, PartialEq, Eq, Structural)]
pub enum TimerStep {
    /// Run the callback.
    Fire,
    /// Skip this tick and keep waiting.
    Skip,
    /// Stop for good.
    Stop,
}

impl TimerRegistry {
    /// An empty registry.
    pub fn new() -> (r: Self)
        ensures
            r.timers@.len() == 0,
    {
        TimerRegistry { timers: Vec::new() }
    }

    /// Add a running timer; its number is returned.
    pub fn register(&mut self) -> (id: usize)
        requires
            old(self).timers@.len() < usize::MAX,
        ensures
            id == old(self).timers@.len(),
            final(self).timers@ == old(self).timers@.push((TimerFlags { paused: false, cancelled: false })),
    {
        let id = self.timers.len();
        self.timers.push(TimerFlags { paused: false, cancelled: false });
        id
    }

    /// Set the flags of timer `id`.
    fn set_flags(&mut self, id: usize, flags: TimerFlags)
        requires
            id < old(self).timers@.len(),
        ensures
            final(self).timers@ == old(self).timers@.update(id as int, flags),
    {
        self.timers.set(id, flags);
    }
}

/// Handle of a timeout.
#[derive(Clone, Copy, Debug, PartialEq, Eq, Structural)]
pub struct TimeoutHandle {
    pub timer: usize,
}

impl TimeoutHandle {
    /// Cancel the timeout so that its callback never runs; no effect once
    /// it has fired.
    pub fn cancel(&self, registry: &mut TimerRegistry)
        requires
            self.timer < old(registry).timers@.len(),
        ensures
            final(registry).timers@ == old(registry).timers@.update(
                self.timer as int,
                (TimerFlags { cancelled: true, ..old(registry).timers@[self.timer as int] }),
            ),
    {
        let f = registry.timers[self.timer];
        registry.set_flags(self.timer, TimerFlags { cancelled: true, ..f });
    }

    /// Whether the timeout was cancelled.
    pub fn is_cancelled(&self, registry: &TimerRegistry) -> (r: bool)
        requires
            self.timer < registry.timers@.len(),
        ensures
            r == registry.timers@[self.timer as int].cancelled,
    {
        registry.timers[self.timer].cancelled
    }
}

/// Handle of an interval.
#[derive(Clone, Copy, Debug, PartialEq, Eq, Structural)]
pub struct IntervalHandle {
    pub timer: usize,
}

impl IntervalHandle {
    /// Pause the interval: ticks are skipped until it resumes.
    pub fn pause(&self, registry: &mut TimerRegistry)
        requires
            self.timer < old(registry).timers@.len(),
        ensures
            final(registry).timers@ == old(registry).timers@.update(
                self.timer as int,
                (TimerFlags { paused: true, ..old(registry).timers@[self.timer as int] }),
            ),
    {
        let f = registry.timers[self.timer];
        registry.set_flags(self.timer, TimerFlags { paused: true, ..f });
    }

    /// Resume a paused interval.
    pub fn resume(&self, registry: &mut TimerRegistry)
        requires
            self.timer < old(registry).timers@.len(),
        ensures
            final(registry).timers@ == old(registry).timers@.update(
                self.timer as int,
                (TimerFlags { paused: false, ..old(registry).timers@[self.timer as int] }),
            ),
    {
        let f = registry.timers[self.timer];
        registry.set_flags(self.timer, TimerFlags { paused: false, ..f });
    }

    /// Whether the interval is paused.
    pub fn is_paused(&self, registry: &TimerRegistry) -> (r: bool)
        requires
            self.timer < registry.timers@.len(),
        ensures
            r == registry.timers@[self.timer as int].paused,
    {
        registry.timers[self.timer].paused
    }

    /// Cancel the interval for good; it cannot be resumed.
    pub fn cancel(&self, registry: &mut TimerRegistry)
        requires
            self.timer < old(registry).timers@.len(),
        ensures
            final(registry).timers@ == old(registry).timers@.update(
                self.timer as int,
                (TimerFlags { cancelled: true, ..old(registry).timers@[self.timer as int] }),
            ),
    {
        let f = registry.timers[self.timer];
        registry.set_flags(self.timer, TimerFlags { cancelled: true, ..f });
    }

    /// Whether the interval was cancelled.
    pub fn is_cancelled(&self, registry: &TimerRegistry) -> (r: bool)
        requires
            self.timer < registry.timers@.len(),
        ensures
            r == registry.timers@[self.timer as int].cancelled,
    {
        registry.timers[self.timer].cancelled
    }
}

/// The decision of an interval at a tick.
pub open spec fn interval_decision(flags: TimerFlags) -> TimerStep {
    if flags.cancelled {
        TimerStep::Stop
    } else if flags.paused {
        TimerStep::Skip
    } else {
        TimerStep::Fire
    }
}

/// What a timeout does when its delay has passed: fire unless cancelled,
/// and stop either way.
pub fn timeout_step(registry: &TimerRegistry, timer: usize) -> (r: TimerStep)
    requires
        timer < registry.timers@.len(),
    ensures
        r == (if registry.timers@[timer as int].cancelled {
            TimerStep::Stop
        } else {
            TimerStep::Fire
        }),
{
    if registry.timers[timer].cancelled {
        TimerStep::Stop
    } else {
        TimerStep::Fire
    }
}

/// What an interval does at a tick: stop once cancelled, skip while
/// paused, fire otherwise.
pub fn interval_step(registry: &TimerRegistry, timer: usize) -> (r: TimerStep)
    requires
        timer < registry.timers@.len(),
    ensures
        r == interval_decision(registry.timers@[timer as int]),
{
    let f = registry.timers[timer];
    if f.cancelled {
        TimerStep::Stop
    } else if f.paused {
        TimerStep::Skip
    } else {
        TimerStep::Fire
    }
}

/// A cancelled interval stops at its next tick whatever is done to its
/// pause flag: resuming does not bring it back.
pub proof fn lemma_cancel_is_final(flags: TimerFlags, paused: bool)
    requires
        flags.cancelled,
    ensures
        interval_decision((TimerFlags { paused, ..flags })) == TimerStep::Stop,
{
}

/// Pausing then resuming an interval gives back the flags it had, when it
/// was running.
pub proof fn lemma_pause_resume(flags: TimerFlags)
    requires
        !flags.paused,
    ensures
        (TimerFlags { paused: false, ..TimerFlags { paused: true, ..flags } }) == flags,
{
}

} // verus!
