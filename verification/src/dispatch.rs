//! The connection dispatcher: the accept/control/drain serving loop.
//!
//! The original loop owns a listener and three kinds of execution context: an
//! accept stage pumping the listener and forwarding connections through a
//! FIFO queue, a control stage spawning one worker per queued connection
//! while polling the shutdown flag, and a drain protocol that bounds how long
//! shutdown waits for workers. All of its decisions live here as a state
//! machine; the process around it performs the blocking calls (accept,
//! bounded receive, sleep, thread spawn) and reports their outcomes as
//! events. Connections are identified by plain ids; the real handles travel
//! beside the model.

use vstd::prelude::*;

use crate::shutdown::{
    spec_complete_shutdown, spec_start_shutdown, ShutdownSignal, ShutdownState,
};

verus! {

/// What the listener pump reported to the accept stage.
pub enum PumpOutcome {
    /// A connection-like handle and its peer address are ready.
    Connection,
    /// A transient condition (interrupted syscall, or a datagram peek that
    /// saw no data): nothing to forward.
    Transient,
    /// A fatal accept error.
    Fatal,
}

/// What the accept stage does with one pump outcome.
#[derive(PartialEq, Eq, Structural, Debug)]
pub enum AcceptAction {
    /// Forward the connection onto the queue.
    Forward,
    /// Retry the pump without forwarding.
    Retry,
    /// Stop the accept stage; its side of the queue closes.
    Stop,
}

/// What the control stage does after one look at its state.
#[derive(PartialEq, Eq, Structural, Debug)]
pub enum ControlAction {
    /// Spawn a worker for this queued connection.
    Spawn(u64),
    /// Nothing queued: sleep a bounded interval, then look again.
    Wait,
    /// Shutdown is initiated: leave the loop and run the drain protocol.
    Drain,
}

/// The accept stage's decision, a pure function of the pump outcome: forward
/// connections, retry transient conditions, stop on a fatal error.
pub fn accept_step(outcome: &PumpOutcome) -> (a: AcceptAction)
    ensures
        a == (match outcome {
            PumpOutcome::Connection => AcceptAction::Forward,
            PumpOutcome::Transient => AcceptAction::Retry,
            PumpOutcome::Fatal => AcceptAction::Stop,
        }),
{
    match outcome {
        PumpOutcome::Connection => AcceptAction::Forward,
        PumpOutcome::Transient => AcceptAction::Retry,
        PumpOutcome::Fatal => AcceptAction::Stop,
    }
}

/// The datagram pump's readiness test: a peek that returned no bytes is the
/// transient "no data yet" condition, anything else is a connection.
pub fn datagram_has_payload(bytes_peeked: usize) -> (r: bool)
    ensures
        r == (bytes_peeked > 0),
{
    bytes_peeked > 0
}

/// The dispatcher's state, as the contracts see it.
pub struct DispatchModel {
    /// Where the shutdown signal stands.
    pub signal: ShutdownState,
    /// How many workers are currently executing a handler.
    pub active: nat,
    /// The queued connections, in arrival order (front first).
    pub pending: Seq<u64>,
    /// Whether the accept stage has stopped (the queue's producer is gone).
    pub closed: bool,
}

/// One look of the control stage at the dispatcher: leave for the drain
/// protocol once shutdown is initiated; otherwise take the oldest queued
/// connection and spawn a worker for it; otherwise treat a closed queue as
/// fatal and initiate shutdown; otherwise wait.
pub open spec fn spec_control_step(m: DispatchModel) -> (DispatchModel, ControlAction) {
    if m.signal != ShutdownState::Running {
        (m, ControlAction::Drain)
    } else if m.pending.len() > 0 {
        (
            DispatchModel { active: m.active + 1, pending: m.pending.drop_first(), ..m },
            ControlAction::Spawn(m.pending[0]),
        )
    } else if m.closed {
        (DispatchModel { signal: spec_start_shutdown(m.signal).0, ..m }, ControlAction::Drain)
    } else {
        (m, ControlAction::Wait)
    }
}

/// A worker leaving (normal completion, handler error, or a spawn failure
/// rolling its count back): one fewer active worker.
pub open spec fn spec_worker_left(m: DispatchModel) -> DispatchModel
    recommends
        m.active > 0,
{
    DispatchModel { active: (m.active - 1) as nat, ..m }
}

/// The end of the drain protocol: mark shutdown complete; the drain was
/// clean exactly when no worker had to be abandoned.
pub open spec fn spec_finish_drain(m: DispatchModel) -> (DispatchModel, bool) {
    (
        DispatchModel { signal: spec_complete_shutdown(m.signal).0, ..m },
        m.active == 0,
    )
}

/// The serving loop's runtime state: shutdown signal, active-worker counter
/// and the FIFO queue from the accept stage to the control stage.
pub struct Dispatcher {
    signal: ShutdownSignal,
    active_workers: usize,
    queue: Vec<u64>,
    accept_closed: bool,
}

impl Dispatcher {
    /// The state machine's view of this dispatcher.
    pub closed spec fn model(self) -> DispatchModel {
        DispatchModel {
            signal: self.signal.state(),
            active: self.active_workers as nat,
            pending: self.queue@,
            closed: self.accept_closed,
        }
    }

    /// A fresh dispatcher: running, no workers, nothing queued, accept stage
    /// up.
    pub fn new() -> (d: Self)
        ensures
            d.model() == (DispatchModel {
                signal: ShutdownState::Running,
                active: 0,
                pending: Seq::<u64>::empty(),
                closed: false,
            }),
    {
        let d = Dispatcher {
            signal: ShutdownSignal::new(),
            active_workers: 0,
            queue: Vec::new(),
            accept_closed: false,
        };
        proof {
            assert(d.model().pending =~= Seq::<u64>::empty());
        }
        d
    }

    /// How many workers are currently executing a handler.
    pub fn active_workers(&self) -> (n: usize)
        ensures
            n == self.model().active,
    {
        self.active_workers
    }

    /// Has shutdown been initiated?
    pub fn is_shutdown_initiated(&self) -> (r: bool)
        ensures
            r == (self.model().signal != ShutdownState::Running),
    {
        self.signal.is_shutdown_initiated()
    }

    /// Has shutdown completed?
    pub fn is_shutdown_complete(&self) -> (r: bool)
        ensures
            r == (self.model().signal == ShutdownState::Complete),
    {
        self.signal.is_shutdown_complete()
    }

    /// An external or internal party requests shutdown (an interrupt handler,
    /// or a fatal fault). Returns whether this call performed the transition.
    pub fn initiate_shutdown(&mut self) -> (r: bool)
        ensures
            final(self).model() == (DispatchModel {
                signal: spec_start_shutdown(old(self).model().signal).0,
                ..old(self).model()
            }),
            r == spec_start_shutdown(old(self).model().signal).1,
    {
        self.signal.start_shutdown()
    }

    /// The accept stage forwarded a connection: it joins the back of the
    /// queue, preserving arrival order.
    pub fn connection_arrived(&mut self, conn: u64)
        ensures
            final(self).model() == (DispatchModel {
                pending: old(self).model().pending.push(conn),
                ..old(self).model()
            }),
    {
        self.queue.push(conn);
    }

    /// The accept stage stopped on a fatal error: the queue's producer side
    /// is gone.
    pub fn accept_stage_closed(&mut self)
        ensures
            final(self).model() == (DispatchModel { closed: true, ..old(self).model() }),
    {
        self.accept_closed = true;
    }

    /// One iteration of the control stage, deciding what to do next; see
    /// [`spec_control_step`].
    pub fn control_step(&mut self) -> (a: ControlAction)
        requires
            old(self).model().active < usize::MAX,
        ensures
            final(self).model() == spec_control_step(old(self).model()).0,
            a == spec_control_step(old(self).model()).1,
    {
        if self.signal.is_shutdown_initiated() {
            ControlAction::Drain
        } else if self.queue.len() > 0 {
            let conn = self.queue.remove(0);
            self.active_workers = self.active_workers + 1;
            proof {
                assert(self.model().pending =~= old(self).model().pending.drop_first());
            }
            ControlAction::Spawn(conn)
        } else if self.accept_closed {
            self.signal.start_shutdown();
            ControlAction::Drain
        } else {
            ControlAction::Wait
        }
    }

    /// A worker finished (with or without a handler error): its count comes
    /// off. Handler errors never propagate further than this.
    pub fn worker_finished(&mut self)
        requires
            old(self).model().active > 0,
        ensures
            final(self).model() == spec_worker_left(old(self).model()),
    {
        self.active_workers = self.active_workers - 1;
    }

    /// Spawning the worker's thread failed: the connection is dropped and the
    /// increment rolled back, as if the worker never started.
    pub fn worker_spawn_failed(&mut self)
        requires
            old(self).model().active > 0,
        ensures
            final(self).model() == spec_worker_left(old(self).model()),
    {
        self.active_workers = self.active_workers - 1;
    }

    /// The drain protocol's polling decision: keep waiting only while the
    /// grace period has not expired and workers are still active.
    pub fn drain_should_wait(&self, grace_expired: bool) -> (r: bool)
        ensures
            r == (!grace_expired && self.model().active > 0),
    {
        !grace_expired && self.active_workers > 0
    }

    /// The end of the drain protocol: mark shutdown complete. Returns whether
    /// the drain was clean, i.e. no worker had to be abandoned (a warning is
    /// owed otherwise).
    pub fn finish_drain(&mut self) -> (clean: bool)
        requires
            old(self).model().signal != ShutdownState::Running,
        ensures
            final(self).model() == spec_finish_drain(old(self).model()).0,
            clean == spec_finish_drain(old(self).model()).1,
            final(self).model().signal == ShutdownState::Complete,
    {
        self.signal.complete_shutdown();
        self.active_workers == 0
    }
}

/// Connections arriving one after another: each joins the back of the queue.
pub open spec fn spec_arrivals(m: DispatchModel, ids: Seq<u64>) -> DispatchModel
    decreases ids.len(),
{
    if ids.len() == 0 {
        m
    } else {
        spec_arrivals(
            DispatchModel { pending: m.pending.push(ids[0]), ..m },
            ids.drop_first(),
        )
    }
}

/// Arrivals only append to the queue, in order.
pub proof fn lemma_arrivals(m: DispatchModel, ids: Seq<u64>)
    ensures
        spec_arrivals(m, ids) == (DispatchModel { pending: m.pending + ids, ..m }),
    decreases ids.len(),
{
    if ids.len() == 0 {
        assert(m.pending + ids =~= m.pending);
    } else {
        lemma_arrivals(DispatchModel { pending: m.pending.push(ids[0]), ..m }, ids.drop_first());
        assert(m.pending.push(ids[0]) + ids.drop_first() =~= m.pending + ids);
    }
}

/// The control stage run to the point of leaving its loop, against a mock in
/// which every spawned worker finishes before the next look: each `Spawn` is
/// followed by the worker leaving, until the step says to drain or wait.
pub open spec fn spec_serve_until_drain(m: DispatchModel) -> DispatchModel
    decreases m.pending.len(),
{
    let stepped = spec_control_step(m);
    if stepped.1 is Spawn {
        spec_serve_until_drain(spec_worker_left(stepped.0))
    } else {
        stepped.0
    }
}

proof fn lemma_serve_until_drain_closed(m: DispatchModel)
    requires
        m.signal == ShutdownState::Running,
        m.active == 0,
        m.closed,
    ensures
        spec_serve_until_drain(m) == (DispatchModel {
            signal: ShutdownState::Initiated,
            active: 0,
            pending: Seq::<u64>::empty(),
            closed: true,
        }),
    decreases m.pending.len(),
{
    if m.pending.len() > 0 {
        let next = spec_worker_left(spec_control_step(m).0);
        lemma_serve_until_drain_closed(next);
    } else {
        assert(spec_serve_until_drain(m).pending =~= Seq::<u64>::empty());
    }
}

/// The connections spawned by the control stage, in spawn order, when it
/// runs as in [`spec_serve_until_drain`].
pub open spec fn spec_spawn_order(m: DispatchModel) -> Seq<u64>
    decreases m.pending.len(),
{
    let stepped = spec_control_step(m);
    match stepped.1 {
        ControlAction::Spawn(id) => seq![id] + spec_spawn_order(spec_worker_left(stepped.0)),
        _ => Seq::<u64>::empty(),
    }
}

/// Law: the queue is FIFO — while shutdown is not initiated, the control
/// stage spawns workers for the queued connections exactly in their arrival
/// order.
pub proof fn lemma_dispatch_is_fifo(m: DispatchModel)
    requires
        m.signal == ShutdownState::Running,
    ensures
        spec_spawn_order(m) == m.pending,
    decreases m.pending.len(),
{
    if m.pending.len() == 0 {
        assert(spec_spawn_order(m) =~= m.pending);
    } else {
        let next = spec_worker_left(spec_control_step(m).0);
        lemma_dispatch_is_fifo(next);
        assert(spec_spawn_order(m) =~= seq![m.pending[0]] + m.pending.drop_first());
        assert(seq![m.pending[0]] + m.pending.drop_first() =~= m.pending);
    }
}

/// Law: however many connections a listener yields before failing fatally,
/// once each spawned worker has finished, the control stage initiates
/// shutdown on the closed queue, the drain protocol finds the active-worker
/// count back at zero, and the signal reads complete — the drain is clean,
/// with no grace-period wait needed.
pub proof fn lemma_dispatcher_drains_after_accept_failure(ids: Seq<u64>)
    ensures
        ({
            let fresh = DispatchModel {
                signal: ShutdownState::Running,
                active: 0,
                pending: Seq::<u64>::empty(),
                closed: false,
            };
            let queued = DispatchModel { closed: true, ..spec_arrivals(fresh, ids) };
            let served = spec_serve_until_drain(queued);
            let drained = spec_finish_drain(served);
            served.active == 0 && drained.1 && drained.0.signal == ShutdownState::Complete
                && drained.0.active == 0
        }),
{
    let fresh = DispatchModel {
        signal: ShutdownState::Running,
        active: 0,
        pending: Seq::<u64>::empty(),
        closed: false,
    };
    lemma_arrivals(fresh, ids);
    let queued = DispatchModel { closed: true, ..spec_arrivals(fresh, ids) };
    lemma_serve_until_drain_closed(queued);
}

} // verus!
