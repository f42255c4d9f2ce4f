//! The race between a child's natural exit and an externally delivered
//! kill, as an explicit state machine. Each wakeup of the waiting task
//! gathers what happened — did the cancellation fire, did delivering the
//! signal fail, what did polling the child report — and steps the machine,
//! which decides the next state and whether the child's single terminal
//! event comes out now. The machine guarantees that at most one kill
//! signal is ever delivered per child and that the terminal event comes
//! out exactly once, whichever arm of the race wins.

use vstd::prelude::*;

use crate::model::{ExitStatus, OsError};

verus! {

/// Wait-state of one child: running undisturbed, kill delivered and exit
/// still awaited, or finished with its terminal event emitted.
#[derive(Debug, Copy, Clone, PartialEq, Eq, Structural)]
pub enum WaitState {
    /// No kill delivered yet; the child may exit naturally.
    Running,
    /// The kill signal was delivered; only the exit is awaited.
    KillRequested,
    /// The terminal event has been emitted; the wait is over.
    Terminated,
}

/// What polling the child's exit reported on one wakeup.
#[derive(Debug, Copy, Clone, PartialEq, Eq, Structural)]
pub enum ChildPoll {
    /// The child exited with this status.
    Exited(ExitStatus),
    /// Waiting on the child failed.
    Failed(OsError),
    /// The child has not exited yet.
    Pending,
}

/// The single terminal event of one child: its exit status, or the error
/// that ended the wait.
#[derive(Debug, Copy, Clone, PartialEq, Eq, Structural)]
pub enum Terminal {
    /// The child exited with this status.
    Exited(ExitStatus),
    /// Waiting on the child, or delivering its kill, failed.
    Failed(OsError),
}

/// Outcome of one wakeup: still waiting, or the terminal event.
#[derive(Debug, Copy, Clone, PartialEq, Eq, Structural)]
pub enum PollOutcome {
    /// Nothing decided yet; poll again on the next wakeup.
    Pending,
    /// The wait is over; this event is emitted exactly once.
    Terminal(Terminal),
}

/// Everything one wakeup learned from outside: whether the cancellation
/// channel has fired, the error if delivering the kill signal failed
/// (`None` when it was delivered fine or was not due), and what polling
/// the child reported.
#[derive(Debug, Copy, Clone, PartialEq, Eq, Structural)]
pub struct PollInput {
    /// Whether the cancellation channel has fired.
    pub cancel_fired: bool,
    /// The error of this wakeup's kill-signal delivery, if it failed.
    pub signal_error: Option<OsError>,
    /// What polling the child's exit reported.
    pub child: ChildPoll,
}

/// The wait that races a child's natural exit against an externally
/// delivered kill.
pub struct KillableWait {
    state: WaitState,
}

impl KillableWait {
    /// The current wait-state.
    pub closed spec fn state_spec(&self) -> WaitState {
        self.state
    }

    /// Whether a wakeup in state `s` must deliver the kill signal before
    /// polling the child: only when no kill was delivered yet and the
    /// cancellation has fired.
    pub open spec fn spec_signal_now(s: WaitState, cancel_fired: bool) -> bool {
        s is Running && cancel_fired
    }

    /// The transition one wakeup makes: if the kill is due and its
    /// delivery failed, that failure is the terminal event; otherwise the
    /// child's exit decides, and a pending child leaves the wait running,
    /// now with the kill marked delivered if it was due. Whatever arm
    /// ends the wait, the state becomes `Terminated` in the same step the
    /// terminal event comes out.
    pub open spec fn spec_step(s: WaitState, input: PollInput) -> (WaitState, PollOutcome) {
        if Self::spec_signal_now(s, input.cancel_fired) && input.signal_error is Some {
            (
                WaitState::Terminated,
                PollOutcome::Terminal(Terminal::Failed(input.signal_error.unwrap())),
            )
        } else {
            match input.child {
                ChildPoll::Exited(status) => (
                    WaitState::Terminated,
                    PollOutcome::Terminal(Terminal::Exited(status)),
                ),
                ChildPoll::Failed(err) => (
                    WaitState::Terminated,
                    PollOutcome::Terminal(Terminal::Failed(err)),
                ),
                ChildPoll::Pending => (
                    if Self::spec_signal_now(s, input.cancel_fired) {
                        WaitState::KillRequested
                    } else {
                        s
                    },
                    PollOutcome::Pending,
                ),
            }
        }
    }

    /// A fresh wait: the child runs, no kill delivered.
    pub fn new() -> (r: Self)
        ensures
            r.state_spec() == WaitState::Running,
    {
        KillableWait { state: WaitState::Running }
    }

    /// Whether this wakeup must deliver the kill signal, before polling
    /// the child's exit.
    pub fn should_signal(&self, cancel_fired: bool) -> (r: bool)
        ensures
            r == Self::spec_signal_now(self.state_spec(), cancel_fired),
    {
        match self.state {
            WaitState::Running => cancel_fired,
            _ => false,
        }
    }

    /// Step the wait by one wakeup. Never called again once the terminal
    /// event has come out.
    pub fn poll_step(&mut self, input: PollInput) -> (r: PollOutcome)
        requires
            old(self).state_spec() != WaitState::Terminated,
        ensures
            (final(self).state_spec(), r) == Self::spec_step(old(self).state_spec(), input),
    {
        let signal_now = self.should_signal(input.cancel_fired);
        if signal_now {
            if let Some(err) = input.signal_error {
                self.state = WaitState::Terminated;
                return PollOutcome::Terminal(Terminal::Failed(err));
            }
        }
        match input.child {
            ChildPoll::Exited(status) => {
                self.state = WaitState::Terminated;
                PollOutcome::Terminal(Terminal::Exited(status))
            },
            ChildPoll::Failed(err) => {
                self.state = WaitState::Terminated;
                PollOutcome::Terminal(Terminal::Failed(err))
            },
            ChildPoll::Pending => {
                if signal_now {
                    self.state = WaitState::KillRequested;
                }
                PollOutcome::Pending
            },
        }
    }
}

/// How many kill signals a run of wakeups from state `s` delivers. A run
/// stops at the terminal event: once `Terminated`, nothing more happens.
pub open spec fn spec_signals(s: WaitState, inputs: Seq<PollInput>) -> nat
    decreases inputs.len(),
{
    if inputs.len() == 0 || s is Terminated {
        0
    } else {
        let next = KillableWait::spec_step(s, inputs[0]).0;
        (if KillableWait::spec_signal_now(s, inputs[0].cancel_fired) {
            1nat
        } else {
            0nat
        }) + spec_signals(next, inputs.skip(1))
    }
}

/// How many terminal events a run of wakeups from state `s` emits.
pub open spec fn spec_terminals(s: WaitState, inputs: Seq<PollInput>) -> nat
    decreases inputs.len(),
{
    if inputs.len() == 0 || s is Terminated {
        0
    } else {
        let (next, outcome) = KillableWait::spec_step(s, inputs[0]);
        (if outcome is Terminal {
            1nat
        } else {
            0nat
        }) + spec_terminals(next, inputs.skip(1))
    }
}

/// The state a run of wakeups from state `s` ends in.
pub open spec fn spec_final_state(s: WaitState, inputs: Seq<PollInput>) -> WaitState
    decreases inputs.len(),
{
    if inputs.len() == 0 || s is Terminated {
        s
    } else {
        spec_final_state(KillableWait::spec_step(s, inputs[0]).0, inputs.skip(1))
    }
}

/// Once the kill was delivered, no later wakeup delivers another.
pub proof fn lemma_no_signal_after_kill(s: WaitState, inputs: Seq<PollInput>)
    requires
        s != WaitState::Running,
    ensures
        spec_signals(s, inputs) == 0,
    decreases inputs.len(),
{
    if inputs.len() == 0 || s is Terminated {
    } else {
        lemma_no_signal_after_kill(KillableWait::spec_step(s, inputs[0]).0, inputs.skip(1));
    }
}

/// At most one kill signal is ever delivered per child, whatever the
/// wakeups bring: killing a child that already exited, or killing twice,
/// never signals again.
pub proof fn lemma_at_most_one_signal(s: WaitState, inputs: Seq<PollInput>)
    ensures
        spec_signals(s, inputs) <= 1,
    decreases inputs.len(),
{
    if inputs.len() == 0 || s is Terminated {
    } else {
        let next = KillableWait::spec_step(s, inputs[0]).0;
        if KillableWait::spec_signal_now(s, inputs[0].cancel_fired) {
            lemma_no_signal_after_kill(next, inputs.skip(1));
        } else {
            lemma_at_most_one_signal(next, inputs.skip(1));
        }
    }
}

/// The terminal event comes out exactly once per completed wait: a run
/// emits it exactly when it reaches `Terminated`, and never twice,
/// whichever arm of the race wins.
pub proof fn lemma_terminal_exactly_once(s: WaitState, inputs: Seq<PollInput>)
    requires
        s != WaitState::Terminated,
    ensures
        spec_terminals(s, inputs) <= 1,
        spec_terminals(s, inputs) == 1 <==> spec_final_state(s, inputs) is Terminated,
    decreases inputs.len(),
{
    if inputs.len() == 0 {
    } else {
        let (next, outcome) = KillableWait::spec_step(s, inputs[0]);
        if outcome is Terminal {
            assert(next is Terminated);
            lemma_nothing_after_terminated(inputs.skip(1));
        } else {
            assert(next != WaitState::Terminated);
            lemma_terminal_exactly_once(next, inputs.skip(1));
        }
    }
}

/// A finished wait stays finished: no further signals, terminals, or
/// state changes.
pub proof fn lemma_nothing_after_terminated(inputs: Seq<PollInput>)
    ensures
        spec_signals(WaitState::Terminated, inputs) == 0,
        spec_terminals(WaitState::Terminated, inputs) == 0,
        spec_final_state(WaitState::Terminated, inputs) is Terminated,
{
}

} // verus!
