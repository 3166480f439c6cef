//! The cancellation signal of a run: three entries, one signal.
//!
//! All cancellation entries converge on one token: dropping the run's
//! handle cancels it, an external token is its parent, and the time budget
//! armed last cancels it and marks the outcome.

use tokio_util::sync::CancellationToken;
use vstd::prelude::*;

use crate::bus::one_more;
use crate::event::CancelReason;

verus! {

/// A cancellation signal shared between tasks.
#[verifier::external_type_specification]
#[verifier::external_body]
pub struct ExCancellationToken(tokio_util::sync::CancellationToken);

/// Whether this handle is known to be of a fired signal: it was fired
/// through this handle, or derived from a handle known to be of one. Other
/// tasks may fire it too, which no value tells.
pub uninterp spec fn known_fired(token: CancellationToken) -> bool;

/// Which signal a handle belongs to.
pub uninterp spec fn signal_of(token: CancellationToken) -> int;

/// The signal that a handle's own one was derived from, if it was: it fires
/// when that one does.
pub uninterp spec fn parent_of(token: CancellationToken) -> Option<int>;

/// `CancellationToken::new`: a signal in the non-cancelled state, derived
/// from no other.
#[verifier::external_body]
fn new_signal() -> (token: CancellationToken)
    ensures
        !known_fired(token),
        parent_of(token) is None,
{
    CancellationToken::new()
}

/// `CancellationToken::child_token`: a signal derived from the parent, which
/// has fired when the parent has and fires when the parent does. When a
/// later firing comes is nothing a value tells, and is left unsaid.
#[verifier::external_body]
fn child_signal(parent: &CancellationToken) -> (child: CancellationToken)
    ensures
        known_fired(child) == known_fired(*parent),
        parent_of(child) == Some(signal_of(*parent)),
{
    parent.child_token()
}

/// `CancellationToken::cancel`: fires the signal of this handle, for good.
/// The handle stays one of the same signal, derived from the same one.
#[verifier::external_body]
fn fire(token: &mut CancellationToken)
    ensures
        known_fired(*final(token)),
        signal_of(*final(token)) == signal_of(*old(token)),
        parent_of(*final(token)) == parent_of(*old(token)),
{
    token.cancel()
}

/// `CancellationToken::is_cancelled`: whether the signal has fired by now. A
/// fired signal stays fired; that it has not fired is for other tasks to
/// change, and nothing is claimed of that.
pub assume_specification[ CancellationToken::is_cancelled ](token: &CancellationToken) -> (fired:
    bool)
    ensures
        known_fired(*token) ==> fired,
;

/// What triggered the cancellation signal.
#[derive(Debug, Clone, Copy, PartialEq, Eq, Structural)]
pub enum CancelOutcome {
    /// The time budget armed on this run elapsed.
    Timeout,
    /// A consumer triggered the signal (drop, token, or upstream parent).
    Signal,
}

/// The reason a run reports for a cancellation.
pub open spec fn reason_of(outcome: CancelOutcome) -> CancelReason {
    match outcome {
        CancelOutcome::Timeout => CancelReason::Timeout,
        CancelOutcome::Signal => CancelReason::UserRequested,
    }
}

/// Maps what triggered the signal onto the reason a run reports.
pub fn cancel_reason(outcome: CancelOutcome) -> (reason: CancelReason)
    ensures
        reason == reason_of(outcome),
{
    match outcome {
        CancelOutcome::Timeout => CancelReason::Timeout,
        CancelOutcome::Signal => CancelReason::UserRequested,
    }
}

/// The cancellation signal and what is known of its cause.
pub struct CancelCore {
    token: CancellationToken,
    timeout_fired: bool,
    armed: Option<u64>,
}

impl CancelCore {
    /// Whether the armed time budget fired the signal.
    pub closed spec fn timed_out(&self) -> bool {
        self.timeout_fired
    }

    /// The number of the time budget that was armed last, if any was.
    pub closed spec fn latest(&self) -> Option<u64> {
        self.armed
    }

    /// The signal.
    pub closed spec fn signal(&self) -> CancellationToken {
        self.token
    }

    /// Creates a core for a run without an external token.
    pub fn new() -> (core: Self)
        ensures
            !core.timed_out(),
            core.latest() is None,
            !known_fired(core.signal()),
            parent_of(core.signal()) is None,
    {
        Self::from_token(new_signal())
    }

    /// Creates a core whose signal fires whenever the parent token fires.
    pub fn child_of(parent: &CancellationToken) -> (core: Self)
        ensures
            !core.timed_out(),
            core.latest() is None,
            known_fired(core.signal()) == known_fired(*parent),
            parent_of(core.signal()) == Some(signal_of(*parent)),
    {
        Self::from_token(child_signal(parent))
    }

    /// Creates a core around a signal.
    pub fn from_token(token: CancellationToken) -> (core: Self)
        ensures
            core.signal() == token,
            !core.timed_out(),
            core.latest() is None,
    {
        CancelCore { token, timeout_fired: false, armed: None }
    }

    /// The internal signal; suspension points select on its cancellation.
    pub fn token(&self) -> (token: &CancellationToken)
        ensures
            *token == self.signal(),
    {
        &self.token
    }

    /// Arms a time budget in place of any armed before, and returns its
    /// number: the caller starts a timer and hands the number back when it
    /// elapses.
    pub fn arm_timeout(&mut self) -> (budget: u64)
        ensures
            budget == (match old(self).latest() {
                Some(earlier) => one_more(earlier),
                None => 0,
            }),
            final(self).latest() == Some(budget),
            final(self).timed_out() == old(self).timed_out(),
            final(self).signal() == old(self).signal(),
    {
        let budget: u64 = match self.armed {
            Some(earlier) => earlier.wrapping_add(1),
            None => 0,
        };
        self.armed = Some(budget);
        budget
    }

    /// A time budget elapsed before anything else fired the signal: the one
    /// armed last marks the outcome and fires the signal; one that was
    /// replaced meanwhile does nothing. Returns whether it fired.
    pub fn fire_timeout(&mut self, budget: u64) -> (fired: bool)
        ensures
            fired == (old(self).latest() == Some(budget)),
            final(self).latest() == old(self).latest(),
            signal_of(final(self).signal()) == signal_of(old(self).signal()),
            parent_of(final(self).signal()) == parent_of(old(self).signal()),
            fired ==> final(self).timed_out() && known_fired(final(self).signal()),
            !fired ==> *final(self) == *old(self),
    {
        match self.armed {
            Some(latest) => if latest == budget {
                self.timeout_fired = true;
                fire(&mut self.token);
                true
            } else {
                false
            },
            None => false,
        }
    }

    /// Fires the signal on the consumer's behalf.
    pub fn cancel(&mut self)
        ensures
            final(self).timed_out() == old(self).timed_out(),
            final(self).latest() == old(self).latest(),
            known_fired(final(self).signal()),
            signal_of(final(self).signal()) == signal_of(old(self).signal()),
            parent_of(final(self).signal()) == parent_of(old(self).signal()),
    {
        fire(&mut self.token);
    }

    /// What triggered the signal, once it has fired.
    pub fn outcome(&self) -> (outcome: CancelOutcome)
        ensures
            outcome == (if self.timed_out() {
                CancelOutcome::Timeout
            } else {
                CancelOutcome::Signal
            }),
    {
        if self.timeout_fired {
            CancelOutcome::Timeout
        } else {
            CancelOutcome::Signal
        }
    }

    /// Whether the signal has already fired: what the signal itself says.
    pub fn is_cancelled(&self) -> (fired: bool)
        ensures
            call_ensures(CancellationToken::is_cancelled, (&self.signal(),), fired),
            known_fired(self.signal()) ==> fired,
    {
        self.token.is_cancelled()
    }
}

} // verus!
