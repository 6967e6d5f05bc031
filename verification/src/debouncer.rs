//! Coalesces bursts of scheduling requests into a single delayed action.
//!
//! The debouncer holds at most one pending action. It does not keep time
//! itself: whoever owns the clock starts a timer of [`Debouncer::delay`]
//! after each call of [`Debouncer::debounce`], drops the timer it had started
//! before, and calls [`Debouncer::fire`] when the timer elapses.

use vstd::prelude::*;

verus! {

/// An action that waits for its delay to elapse.
pub struct Scheduled<A> {
    pub delay_ms: u64,
    pub action: A,
}

pub struct Debouncer<A> {
    timeout: Option<Scheduled<A>>,
}

impl<A> View for Debouncer<A> {
    type V = Option<Scheduled<A>>;

    /// The pending action with its delay, or `None` where the debouncer is idle.
    closed spec fn view(&self) -> Option<Scheduled<A>> {
        self.timeout
    }
}

impl<A> Debouncer<A> {
    /// An idle debouncer.
    pub fn new() -> (debouncer: Self)
        ensures
            debouncer@.is_none(),
    {
        Debouncer { timeout: None }
    }

    /// Schedules `action` to run once after `delay_ms`. An action that was
    /// still pending is cancelled: it will never run.
    pub fn debounce(&mut self, delay_ms: u64, action: A)
        ensures
            final(self)@ == after_debounce(old(self)@, delay_ms, action),
    {
        self.timeout = Some(Scheduled { delay_ms, action });
    }

    /// Whether an action is pending.
    pub fn is_pending(&self) -> (pending: bool)
        ensures
            pending == self@.is_some(),
    {
        self.timeout.is_some()
    }

    /// The delay of the pending action, in milliseconds.
    pub fn delay(&self) -> (delay_ms: Option<u64>)
        ensures
            delay_ms == match self@ {
                Some(scheduled) => Some(scheduled.delay_ms),
                None => None,
            },
    {
        match &self.timeout {
            Some(scheduled) => Some(scheduled.delay_ms),
            None => None,
        }
    }

    /// The delay has elapsed: hands out the pending action, which the caller
    /// runs, and goes back to idle. An idle debouncer hands out nothing.
    pub fn fire(&mut self) -> (action: Option<A>)
        ensures
            (action, final(self)@) == after_fire(old(self)@),
    {
        match self.timeout.take() {
            Some(scheduled) => Some(scheduled.action),
            None => None,
        }
    }
}

/// The state after `debounce`: the new action is the one that is pending,
/// whatever was pending before.
pub open spec fn after_debounce<A>(
    before: Option<Scheduled<A>>,
    delay_ms: u64,
    action: A,
) -> Option<Scheduled<A>> {
    Some(Scheduled { delay_ms, action })
}

/// What `fire` hands out and the state it leaves.
pub open spec fn after_fire<A>(before: Option<Scheduled<A>>) -> (Option<A>, Option<Scheduled<A>>) {
    match before {
        Some(scheduled) => (Some(scheduled.action), None),
        None => (None, None),
    }
}

/// Of two actions scheduled one after the other before any delay elapsed,
/// only the second ever runs, and it runs exactly once: the first firing
/// hands out the second action, and a further firing hands out nothing.
pub proof fn lemma_last_action_wins<A>(
    before: Option<Scheduled<A>>,
    delay_ms: u64,
    first: A,
    second: A,
)
    ensures
        ({
            let pending = after_debounce(after_debounce(before, delay_ms, first), delay_ms, second);
            &&& after_fire(pending).0 == Some(second)
            &&& after_fire(after_fire(pending).1).0.is_none()
        }),
{
}

} // verus!
