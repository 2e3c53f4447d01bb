//! Handing the outcome of a run from the side that works to the side that waits.
//!
//! A [`RunState`] is the one slot between them. The working side puts the outcome
//! in when the run ends; the waiting side looks from time to time and takes it out.
//! Each outcome is taken exactly once. The slot does no locking of its own: whoever
//! shares it between two threads wraps it in a lock.

use crate::error::{outcome_text, ConversionOutcome, OutcomeText};
use vstd::prelude::*;

verus! {

/// The state of the slot as a value of specifications.
pub struct RunStateText {
    /// A run has begun and its outcome has not been taken yet.
    pub is_running: bool,
    /// The outcome of the run, from when it ends until it is taken.
    pub terminal_result: Option<OutcomeText>,
}

/// The slot with no run in flight.
pub open spec fn idle() -> RunStateText {
    RunStateText { is_running: false, terminal_result: None }
}

/// An outcome waits only in a slot whose run has begun.
pub open spec fn consistent(state: RunStateText) -> bool {
    state.terminal_result is Some ==> state.is_running
}

/// The slot after an attempt to begin a run: running, unless a run was in flight.
pub open spec fn begun(state: RunStateText) -> RunStateText {
    if state.is_running {
        state
    } else {
        RunStateText { is_running: true, terminal_result: None }
    }
}

/// The slot after an attempt to put an outcome in: it goes in where a run is in
/// flight and has not ended yet, and nowhere else.
pub open spec fn published(state: RunStateText, outcome: OutcomeText) -> RunStateText {
    if state.is_running && state.terminal_result is None {
        RunStateText { is_running: true, terminal_result: Some(outcome) }
    } else {
        state
    }
}

/// The slot after a look: empty and idle where an outcome was waiting, unchanged
/// otherwise.
pub open spec fn polled(state: RunStateText) -> RunStateText {
    if state.terminal_result is Some {
        idle()
    } else {
        state
    }
}

/// The slot between a run and the one who waits for its outcome.
pub struct RunState {
    is_running: bool,
    terminal_result: Option<ConversionOutcome>,
}

impl View for RunState {
    type V = RunStateText;

    closed spec fn view(&self) -> RunStateText {
        RunStateText {
            is_running: self.is_running,
            terminal_result: match self.terminal_result {
                Some(outcome) => Some(outcome_text(outcome)),
                None => None,
            },
        }
    }
}

impl RunState {
    #[verifier::type_invariant]
    spec fn sound(self) -> bool {
        consistent(self@)
    }

    /// The slot with no run in flight.
    pub fn new() -> (res: RunState)
        ensures
            res@ == idle(),
    {
        RunState { is_running: false, terminal_result: None }
    }

    /// Whether a run has begun whose outcome has not been taken yet.
    pub fn is_running(&self) -> (res: bool)
        ensures
            res == self@.is_running,
            consistent(self@),
    {
        proof {
            use_type_invariant(self);
        }
        self.is_running
    }

    /// Marks the beginning of a run. Answers whether the run may begin: it may not
    /// while another is in flight.
    pub fn begin(&mut self) -> (res: bool)
        ensures
            res == !old(self)@.is_running,
            final(self)@ == begun(old(self)@),
    {
        proof {
            use_type_invariant(&*self);
        }
        if self.is_running {
            false
        } else {
            self.is_running = true;
            true
        }
    }

    /// Puts the outcome of the run in. Answers whether it went in: it does not where
    /// no run is in flight, or where the run's outcome is in already.
    pub fn publish(&mut self, outcome: ConversionOutcome) -> (res: bool)
        ensures
            res == (old(self)@.is_running && old(self)@.terminal_result is None),
            final(self)@ == published(old(self)@, outcome_text(outcome)),
    {
        if self.is_running && self.terminal_result.is_none() {
            self.terminal_result = Some(outcome);
            true
        } else {
            false
        }
    }

    /// Looks for the outcome and takes it out where it is there.
    pub fn poll(&mut self) -> (res: Option<ConversionOutcome>)
        ensures
            match res {
                Some(outcome) => old(self)@.terminal_result == Some(outcome_text(outcome)),
                None => old(self)@.terminal_result is None,
            },
            final(self)@ == polled(old(self)@),
    {
        if self.terminal_result.is_some() {
            let mut taken: Option<ConversionOutcome> = None;
            std::mem::swap(&mut self.terminal_result, &mut taken);
            self.is_running = false;
            taken
        } else {
            None
        }
    }
}

/// An outcome put in is there at the next look and gone at the one after.
pub proof fn lemma_taken_once(state: RunStateText, outcome: OutcomeText)
    requires
        state.is_running,
        state.terminal_result is None,
    ensures
        published(state, outcome).terminal_result == Some(outcome),
        polled(published(state, outcome)) == idle(),
        polled(polled(published(state, outcome))) == idle(),
        polled(idle()).terminal_result is None,
{
}

/// Before the run ends a look finds nothing and changes nothing.
pub proof fn lemma_nothing_before_the_end(state: RunStateText)
    requires
        state.terminal_result is None,
    ensures
        polled(state) == state,
{
}

/// The first outcome of a run stands: a second one does not replace it.
pub proof fn lemma_first_outcome_stands(state: RunStateText, first: OutcomeText, second: OutcomeText)
    requires
        state.is_running,
        state.terminal_result is None,
    ensures
        published(published(state, first), second) == published(state, first),
{
}

/// Beginning, publishing and looking keep the slot consistent.
pub proof fn lemma_slot_stays_consistent(state: RunStateText, outcome: OutcomeText)
    requires
        consistent(state),
    ensures
        consistent(begun(state)),
        consistent(published(state, outcome)),
        consistent(polled(state)),
{
}

} // verus!
