//! The scheduler: rounds and pauses, in turn, for ever.
//!
//! The scheduler is in one of two phases. While dispatching, one round is
//! under way and the scheduler waits for its completion; then it pauses.
//! While sleeping it waits out the interval; then it dispatches the next
//! round. The pause is counted from the end of the round, so that rounds may
//! drift but never overlap.

use vstd::prelude::*;

verus! {

/// What the scheduler is waiting for.
#[derive(Clone, Copy, Debug, PartialEq, Eq, Structural)]
pub enum Phase {
    /// A round is under way.
    Dispatching,
    /// The pause between two rounds is under way.
    Sleeping,
}

/// What the caller reports to the scheduler.
#[derive(Clone, Copy, Debug, PartialEq, Eq, Structural)]
pub enum Signal {
    /// Every worker of the round has finished and every record is delivered.
    RoundComplete,
    /// The pause is over.
    Woke,
}

/// What the scheduler asks the caller to do next.
#[derive(Clone, Copy, Debug, PartialEq, Eq, Structural)]
pub enum Command {
    /// Dispatch one round over the whole endpoint list, and report
    /// `RoundComplete` when it is over.
    Dispatch,
    /// Pause for this many milliseconds, and report `Woke` after them.
    Sleep(u64),
}

/// Whether `signal` is the one that `phase` waits for.
pub open spec fn awaited(phase: Phase, signal: Signal) -> bool {
    match (phase, signal) {
        (Phase::Dispatching, Signal::RoundComplete) => true,
        (Phase::Sleeping, Signal::Woke) => true,
        _ => false,
    }
}

/// The phase after `signal` arrives in `phase`: the other phase where the
/// signal is the awaited one, the same phase where it is not.
pub open spec fn react(phase: Phase, signal: Signal) -> Phase {
    match (phase, signal) {
        (Phase::Dispatching, Signal::RoundComplete) => Phase::Sleeping,
        (Phase::Sleeping, Signal::Woke) => Phase::Dispatching,
        _ => phase,
    }
}

/// What is to be done when `signal` arrives in `phase`: a pause of the whole
/// interval after a round, a round after a pause, nothing after a signal that
/// was not awaited.
pub open spec fn command_on(phase: Phase, signal: Signal, interval_ms: u64) -> Option<Command> {
    match (phase, signal) {
        (Phase::Dispatching, Signal::RoundComplete) => Some(Command::Sleep(interval_ms)),
        (Phase::Sleeping, Signal::Woke) => Some(Command::Dispatch),
        _ => None,
    }
}

/// The state of the scheduler.
#[derive(Clone, Copy, Debug, PartialEq, Eq)]
pub struct Scheduler {
    phase: Phase,
    interval_ms: u64,
}

impl Scheduler {
    /// The phase the scheduler is in.
    pub closed spec fn phase(self) -> Phase {
        self.phase
    }

    /// The length of each pause, in milliseconds.
    pub closed spec fn interval(self) -> u64 {
        self.interval_ms
    }

    /// A scheduler that pauses `interval_ms` milliseconds between rounds. It
    /// starts out dispatching: the first round is to be dispatched at once.
    pub fn start(interval_ms: u64) -> (started: (Scheduler, Command))
        ensures
            started.0.phase() == Phase::Dispatching,
            started.0.interval() == interval_ms,
            started.1 == Command::Dispatch,
    {
        (Scheduler { phase: Phase::Dispatching, interval_ms }, Command::Dispatch)
    }

    /// The phase the scheduler is in.
    pub fn current_phase(&self) -> (phase: Phase)
        ensures
            phase == self.phase(),
    {
        self.phase
    }

    /// The length of each pause, in milliseconds.
    pub fn interval_ms(&self) -> (interval_ms: u64)
        ensures
            interval_ms == self.interval(),
    {
        self.interval_ms
    }

    /// Takes a signal and says what to do next. A signal that the scheduler
    /// is not waiting for changes nothing and asks for nothing.
    pub fn on_signal(&mut self, signal: Signal) -> (command: Option<Command>)
        ensures
            final(self).phase() == react(old(self).phase(), signal),
            final(self).interval() == old(self).interval(),
            command == command_on(old(self).phase(), signal, old(self).interval()),
            command is Some <==> awaited(old(self).phase(), signal),
            final(self).phase() != old(self).phase() <==> awaited(old(self).phase(), signal),
    {
        match (self.phase, signal) {
            (Phase::Dispatching, Signal::RoundComplete) => {
                self.phase = Phase::Sleeping;
                Some(Command::Sleep(self.interval_ms))
            },
            (Phase::Sleeping, Signal::Woke) => {
                self.phase = Phase::Dispatching;
                Some(Command::Dispatch)
            },
            _ => None,
        }
    }
}

/// The phase of a scheduler that has taken `signals`, in order, since it was
/// started.
pub open spec fn phase_after(signals: Seq<Signal>) -> Phase
    decreases signals.len(),
{
    if signals.len() == 0 {
        Phase::Dispatching
    } else {
        react(phase_after(signals.drop_last()), signals.last())
    }
}

/// How many rounds a scheduler has dispatched by the time it has taken
/// `signals`: the first, and one for every pause that it was woken from.
pub open spec fn rounds_dispatched(signals: Seq<Signal>) -> nat
    decreases signals.len(),
{
    if signals.len() == 0 {
        1
    } else {
        let earlier = signals.drop_last();
        if phase_after(earlier) == Phase::Sleeping && signals.last() == Signal::Woke {
            rounds_dispatched(earlier) + 1
        } else {
            rounds_dispatched(earlier)
        }
    }
}

/// How many rounds have been reported complete to a scheduler, while it was
/// waiting for one, by the time it has taken `signals`.
pub open spec fn rounds_completed(signals: Seq<Signal>) -> nat
    decreases signals.len(),
{
    if signals.len() == 0 {
        0
    } else {
        let earlier = signals.drop_last();
        if phase_after(earlier) == Phase::Dispatching && signals.last() == Signal::RoundComplete {
            rounds_completed(earlier) + 1
        } else {
            rounds_completed(earlier)
        }
    }
}

/// Rounds never overlap. Whatever signals arrive, in whatever order, at most
/// one round is under way: while the scheduler dispatches, every round but
/// the last has been reported complete, and while it sleeps, every round has.
pub proof fn rounds_never_overlap(signals: Seq<Signal>)
    ensures
        phase_after(signals) == Phase::Dispatching ==> rounds_dispatched(signals)
            == rounds_completed(signals) + 1,
        phase_after(signals) == Phase::Sleeping ==> rounds_dispatched(signals) == rounds_completed(
            signals,
        ),
    decreases signals.len(),
{
    if signals.len() > 0 {
        rounds_never_overlap(signals.drop_last());
    }
}

/// A round is dispatched only after the round before it was reported
/// complete: where the scheduler answers a signal with `Dispatch`, as many
/// rounds have been completed as were dispatched before.
pub proof fn dispatch_follows_completion(signals: Seq<Signal>, signal: Signal, interval_ms: u64)
    requires
        command_on(phase_after(signals), signal, interval_ms) == Some(Command::Dispatch),
    ensures
        rounds_completed(signals) == rounds_dispatched(signals),
        rounds_dispatched(signals.push(signal)) == rounds_dispatched(signals) + 1,
{
    rounds_never_overlap(signals);
    assert(signals.push(signal).drop_last() =~= signals);
}

} // verus!
