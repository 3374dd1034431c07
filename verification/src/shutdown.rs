//! The two-stage graceful-shutdown flag.
//!
//! A `ShutdownSignal` walks a one-way lifecycle: running, then
//! shutdown-initiated, then shutdown-complete. Each transition fires at most
//! once; racing initiators are serialized by the underlying set-once
//! primitive, so the model here is the sequence of transition attempts in the
//! order they won that race.

use vstd::prelude::*;

verus! {

/// Where a signal stands in its lifecycle.
#[derive(Clone, Copy, PartialEq, Eq, Structural, Debug)]
pub enum ShutdownState {
    /// Serving normally; shutdown has not been requested.
    Running,
    /// Shutdown has been requested; the drain protocol may still be running.
    Initiated,
    /// The drain protocol has finished; the process may exit.
    Complete,
}

/// What one `start_shutdown` attempt does to a state: the transition fires
/// only from `Running`, and only the firing attempt observes `true`.
pub open spec fn spec_start_shutdown(s: ShutdownState) -> (ShutdownState, bool) {
    if s == ShutdownState::Running {
        (ShutdownState::Initiated, true)
    } else {
        (s, false)
    }
}

/// What one `complete_shutdown` attempt does to a state: before initiation it
/// is a no-op and reports nothing; from `Initiated` it fires; once fired,
/// later attempts observe `false`.
pub open spec fn spec_complete_shutdown(s: ShutdownState) -> (ShutdownState, Option<bool>) {
    match s {
        ShutdownState::Running => (s, None),
        ShutdownState::Initiated => (ShutdownState::Complete, Some(true)),
        ShutdownState::Complete => (s, Some(false)),
    }
}

/// The shareable two-stage completion flag coordinating graceful shutdown.
///
/// This value models the single underlying state that every handle of the
/// original shares; the process around it hands out handles and serializes
/// concurrent calls onto it.
pub struct ShutdownSignal {
    state: ShutdownState,
}

impl ShutdownSignal {
    /// The current lifecycle state, for contracts.
    pub closed spec fn state(self) -> ShutdownState {
        self.state
    }

    /// Shutdown has been requested (and possibly already completed).
    pub open spec fn initiated(self) -> bool {
        self.state() != ShutdownState::Running
    }

    /// The drain protocol has finished.
    pub open spec fn complete(self) -> bool {
        self.state() == ShutdownState::Complete
    }

    /// A fresh signal: running, nothing initiated.
    pub fn new() -> (s: Self)
        ensures
            s.state() == ShutdownState::Running,
    {
        ShutdownSignal { state: ShutdownState::Running }
    }

    /// Non-blocking observation: has shutdown been initiated?
    pub fn is_shutdown_initiated(&self) -> (r: bool)
        ensures
            r == self.initiated(),
    {
        match self.state {
            ShutdownState::Running => false,
            _ => true,
        }
    }

    /// Non-blocking observation: has shutdown completed?
    pub fn is_shutdown_complete(&self) -> (r: bool)
        ensures
            r == self.complete(),
    {
        match self.state {
            ShutdownState::Complete => true,
            _ => false,
        }
    }

    /// Attempt the running-to-initiated transition. Returns whether this call
    /// performed it: `true` for the first caller only, which makes
    /// "the first to detect shutdown logs it" race-free.
    pub fn start_shutdown(&mut self) -> (r: bool)
        ensures
            (final(self).state(), r) == spec_start_shutdown(old(self).state()),
            final(self).initiated(),
            final(self).complete() == old(self).complete(),
            r == !old(self).initiated(),
    {
        match self.state {
            ShutdownState::Running => {
                self.state = ShutdownState::Initiated;
                true
            },
            _ => false,
        }
    }

    /// Attempt the initiated-to-complete transition. Before any initiation
    /// this is a no-op and returns `None`; otherwise `Some(b)` where `b` says
    /// whether this call performed the transition.
    pub fn complete_shutdown(&mut self) -> (r: Option<bool>)
        ensures
            (final(self).state(), r) == spec_complete_shutdown(old(self).state()),
            !old(self).initiated() ==> *final(self) == *old(self) && !final(self).complete(),
            old(self).initiated() ==> final(self).complete(),
    {
        match self.state {
            ShutdownState::Running => None,
            ShutdownState::Initiated => {
                self.state = ShutdownState::Complete;
                Some(true)
            },
            ShutdownState::Complete => Some(false),
        }
    }
}

/// The results observed by `n` successive `start_shutdown` attempts beginning
/// in state `s`, in the order the attempts were serialized.
pub open spec fn start_shutdown_results(s: ShutdownState, n: nat) -> Seq<bool>
    decreases n,
{
    if n == 0 {
        Seq::<bool>::empty()
    } else {
        seq![spec_start_shutdown(s).1] + start_shutdown_results(spec_start_shutdown(s).0, (n - 1) as nat)
    }
}

/// How many of a sequence of observations were `true`.
pub open spec fn count_true(s: Seq<bool>) -> nat
    decreases s.len(),
{
    if s.len() == 0 {
        0
    } else {
        (if s[0] {
            1nat
        } else {
            0nat
        }) + count_true(s.drop_first())
    }
}

/// From any already-initiated state, no `start_shutdown` attempt ever
/// observes `true`.
proof fn lemma_no_initiation_after_first(s: ShutdownState, n: nat)
    requires
        s != ShutdownState::Running,
    ensures
        count_true(start_shutdown_results(s, n)) == 0,
    decreases n,
{
    if n > 0 {
        assert(start_shutdown_results(s, n).drop_first() =~= start_shutdown_results(
            s,
            (n - 1) as nat,
        ));
        lemma_no_initiation_after_first(s, (n - 1) as nat);
    }
}

/// Law: however many `start_shutdown` attempts race on one fresh signal,
/// exactly one of them observes `true`, namely the first to be serialized.
pub proof fn lemma_exactly_one_initiation(n: nat)
    requires
        n >= 1,
    ensures
        count_true(start_shutdown_results(ShutdownState::Running, n)) == 1,
        start_shutdown_results(ShutdownState::Running, n)[0],
{
    let results = start_shutdown_results(ShutdownState::Running, n);
    assert(results.drop_first() =~= start_shutdown_results(
        ShutdownState::Initiated,
        (n - 1) as nat,
    ));
    lemma_no_initiation_after_first(ShutdownState::Initiated, (n - 1) as nat);
}

/// Law: completion implies initiation: the second stage of the flag is only
/// reachable through the first.
pub proof fn lemma_complete_implies_initiated(s: ShutdownSignal)
    ensures
        s.complete() ==> s.initiated(),
{
}

/// Law: a `complete_shutdown` before any initiation changes nothing, and
/// completion cannot be observed afterwards.
pub proof fn lemma_complete_before_initiate(s: ShutdownSignal)
    requires
        !s.initiated(),
    ensures
        spec_complete_shutdown(s.state()).0 == s.state(),
        spec_complete_shutdown(s.state()).1 is None,
        spec_complete_shutdown(s.state()).0 != ShutdownState::Complete,
{
}

} // verus!
