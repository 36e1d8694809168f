use vstd::prelude::*;

verus! {

/// Session-wide lifecycle phase.
#[derive(Clone, Copy, Debug, PartialEq, Eq, Structural)]
pub enum Phase {
    Idle,
    Running,
    Draining,
    Stopped,
}

/// What ended the running phase.
#[derive(Clone, Copy, Debug, PartialEq, Eq, Structural)]
pub enum StopCause {
    EndOfStream,
    Interrupt,
    SessionError,
}

/// An input of the supervisor.
#[derive(Clone, Copy, Debug, PartialEq, Eq, Structural)]
pub enum ControlEvent {
    /// The session is assembled and its components started.
    Started,
    /// The operator asked the recording to stop.
    Interrupt,
    /// The source reported the end of its stream.
    EndOfStream,
    /// An unrecoverable session-wide error (not a per-track failure).
    SessionError,
    /// Every component has finished the drain.
    DrainAcknowledged,
    /// The drain did not finish within its time bound.
    DrainTimeout,
}

/// What the supervisor asks of the surrounding process after an event.
#[derive(Clone, Copy, Debug, PartialEq, Eq, Structural)]
pub enum Command {
    Nothing,
    /// Send the single drain command downstream.
    Drain,
    /// Tear the session down.
    Teardown,
}

/// How a stopped session completed.
#[derive(Clone, Copy, Debug, PartialEq, Eq, Structural)]
pub enum Completion {
    /// The source ended and every segment was finalized.
    Clean,
    /// The operator stopped it and the drain finalized every segment.
    InterruptedClean,
    /// The drain ran out of time and the session was torn down by force.
    DrainTimedOut,
    /// A session-wide error ended it; finalizing was attempted.
    ErrorTerminated,
}

#[derive(Clone, Copy, Debug, PartialEq, Eq, Structural)]
pub struct Supervisor {
    pub phase: Phase,
    pub cause: Option<StopCause>,
    pub drain_timed_out: bool,
}

/// The supervisor and command after one event. `Stopped` is terminal; the
/// drain command is issued once, on leaving `Running`.
pub open spec fn next(s: Supervisor, ev: ControlEvent) -> (Supervisor, Command) {
    match s.phase {
        Phase::Idle => match ev {
            ControlEvent::Started => (Supervisor { phase: Phase::Running, ..s }, Command::Nothing),
            ControlEvent::Interrupt => (
                Supervisor { phase: Phase::Stopped, cause: Some(StopCause::Interrupt), ..s },
                Command::Teardown,
            ),
            ControlEvent::SessionError => (
                Supervisor { phase: Phase::Stopped, cause: Some(StopCause::SessionError), ..s },
                Command::Teardown,
            ),
            _ => (s, Command::Nothing),
        },
        Phase::Running => match ev {
            ControlEvent::Interrupt => (
                Supervisor { phase: Phase::Draining, cause: Some(StopCause::Interrupt), ..s },
                Command::Drain,
            ),
            ControlEvent::EndOfStream => (
                Supervisor { phase: Phase::Draining, cause: Some(StopCause::EndOfStream), ..s },
                Command::Drain,
            ),
            ControlEvent::SessionError => (
                Supervisor { phase: Phase::Draining, cause: Some(StopCause::SessionError), ..s },
                Command::Drain,
            ),
            _ => (s, Command::Nothing),
        },
        Phase::Draining => match ev {
            ControlEvent::DrainAcknowledged => (Supervisor { phase: Phase::Stopped, ..s }, Command::Teardown),
            ControlEvent::DrainTimeout => (
                Supervisor { phase: Phase::Stopped, drain_timed_out: true, ..s },
                Command::Teardown,
            ),
            ControlEvent::SessionError => (Supervisor { cause: Some(StopCause::SessionError), ..s }, Command::Nothing),
            _ => (s, Command::Nothing),
        },
        Phase::Stopped => (s, Command::Nothing),
    }
}

pub open spec fn completion_of(s: Supervisor) -> Option<Completion> {
    if !(s.phase is Stopped) {
        None
    } else if s.cause == Some(StopCause::SessionError) {
        Some(Completion::ErrorTerminated)
    } else if s.drain_timed_out {
        Some(Completion::DrainTimedOut)
    } else if s.cause == Some(StopCause::Interrupt) {
        Some(Completion::InterruptedClean)
    } else {
        Some(Completion::Clean)
    }
}

/// The supervisor after a sequence of events.
pub open spec fn run(s: Supervisor, evs: Seq<ControlEvent>) -> Supervisor
    decreases evs.len(),
{
    if evs.len() == 0 {
        s
    } else {
        run(next(s, evs[0]).0, evs.subrange(1, evs.len() as int))
    }
}

/// A stopped supervisor stays stopped, and unchanged, whatever events follow.
pub proof fn lemma_stopped_is_terminal(s: Supervisor, evs: Seq<ControlEvent>)
    requires
        s.phase is Stopped,
    ensures
        run(s, evs) == s,
    decreases evs.len(),
{
    if evs.len() > 0 {
        lemma_stopped_is_terminal(next(s, evs[0]).0, evs.subrange(1, evs.len() as int));
    }
}

/// An interrupt while running moves the session to draining with one drain
/// command; once the drain is acknowledged the session stops and reports
/// that it was interrupted but finished cleanly. A second interrupt while
/// draining issues no second drain.
pub proof fn lemma_interrupt_drains_cleanly(s: Supervisor)
    requires
        s.phase is Running,
        !s.drain_timed_out,
    ensures
        next(s, ControlEvent::Interrupt).0.phase is Draining,
        next(s, ControlEvent::Interrupt).1 == Command::Drain,
        next(next(s, ControlEvent::Interrupt).0, ControlEvent::Interrupt).1 == Command::Nothing,
        next(next(s, ControlEvent::Interrupt).0, ControlEvent::DrainAcknowledged).0.phase is Stopped,
        next(next(s, ControlEvent::Interrupt).0, ControlEvent::DrainAcknowledged).1 == Command::Teardown,
        completion_of(next(next(s, ControlEvent::Interrupt).0, ControlEvent::DrainAcknowledged).0) == Some(
            Completion::InterruptedClean,
        ),
{
}

/// A draining session always stops when its drain times out, and reports
/// the timeout unless an error ended it.
pub proof fn lemma_drain_timeout_stops(s: Supervisor)
    requires
        s.phase is Draining,
        s.cause != Some(StopCause::SessionError),
    ensures
        next(s, ControlEvent::DrainTimeout).0.phase is Stopped,
        next(s, ControlEvent::DrainTimeout).1 == Command::Teardown,
        completion_of(next(s, ControlEvent::DrainTimeout).0) == Some(Completion::DrainTimedOut),
{
}

impl Supervisor {
    pub open spec fn new_spec() -> Supervisor {
        Supervisor { phase: Phase::Idle, cause: None, drain_timed_out: false }
    }

    /// A supervisor in `Idle`.
    pub fn new() -> (r: Supervisor)
        ensures
            r == Supervisor::new_spec(),
    {
        Supervisor { phase: Phase::Idle, cause: None, drain_timed_out: false }
    }

    /// Handles one event and returns the command that it calls for.
    pub fn handle(&mut self, ev: ControlEvent) -> (c: Command)
        ensures
            (*final(self), c) == next(*old(self), ev),
    {
        let s = *self;
        let (n, c) = match s.phase {
            Phase::Idle => match ev {
                ControlEvent::Started => (Supervisor { phase: Phase::Running, ..s }, Command::Nothing),
                ControlEvent::Interrupt => (
                    Supervisor { phase: Phase::Stopped, cause: Some(StopCause::Interrupt), ..s },
                    Command::Teardown,
                ),
                ControlEvent::SessionError => (
                    Supervisor { phase: Phase::Stopped, cause: Some(StopCause::SessionError), ..s },
                    Command::Teardown,
                ),
                _ => (s, Command::Nothing),
            },
            Phase::Running => match ev {
                ControlEvent::Interrupt => (
                    Supervisor { phase: Phase::Draining, cause: Some(StopCause::Interrupt), ..s },
                    Command::Drain,
                ),
                ControlEvent::EndOfStream => (
                    Supervisor { phase: Phase::Draining, cause: Some(StopCause::EndOfStream), ..s },
                    Command::Drain,
                ),
                ControlEvent::SessionError => (
                    Supervisor { phase: Phase::Draining, cause: Some(StopCause::SessionError), ..s },
                    Command::Drain,
                ),
                _ => (s, Command::Nothing),
            },
            Phase::Draining => match ev {
                ControlEvent::DrainAcknowledged => (Supervisor { phase: Phase::Stopped, ..s }, Command::Teardown),
                ControlEvent::DrainTimeout => (
                    Supervisor { phase: Phase::Stopped, drain_timed_out: true, ..s },
                    Command::Teardown,
                ),
                ControlEvent::SessionError => (
                    Supervisor { cause: Some(StopCause::SessionError), ..s },
                    Command::Nothing,
                ),
                _ => (s, Command::Nothing),
            },
            Phase::Stopped => (s, Command::Nothing),
        };
        *self = n;
        c
    }

    /// How the session completed; `None` until it is stopped.
    pub fn completion(&self) -> (r: Option<Completion>)
        ensures
            r == completion_of(*self),
    {
        match self.phase {
            Phase::Stopped => {
                if self.cause == Some(StopCause::SessionError) {
                    Some(Completion::ErrorTerminated)
                } else if self.drain_timed_out {
                    Some(Completion::DrainTimedOut)
                } else if self.cause == Some(StopCause::Interrupt) {
                    Some(Completion::InterruptedClean)
                } else {
                    Some(Completion::Clean)
                }
            },
            _ => None,
        }
    }

    /// Whether new tracks may still be routed.
    pub fn accepting(&self) -> (r: bool)
        ensures
            r == (self.phase is Running),
    {
        matches!(self.phase, Phase::Running)
    }
}

} // verus!
