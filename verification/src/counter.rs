//! The active-request counter: one shared non-negative integer, incremented
//! once per dequeued envelope and decremented once on every terminal exit of
//! that envelope's processing. `counter == 0` defines the idle state.

use vstd::prelude::*;

verus! {

/// Counts envelopes currently being processed by some worker.
///
/// Underflow (a decrement without a matching increment) is a programming
/// error of the caller: `decrement` requires a strictly positive count, so a
/// verified caller can never drive the counter negative.
pub struct ActiveRequestCounter {
    count: usize,
}

impl ActiveRequestCounter {
    /// How many envelopes are in flight.
    pub closed spec fn spec_count(self) -> nat {
        self.count as nat
    }

    pub fn new() -> (r: ActiveRequestCounter)
        ensures
            r.spec_count() == 0,
    {
        ActiveRequestCounter { count: 0 }
    }

    /// Called exactly once when a worker dequeues an envelope.
    pub fn increment(&mut self)
        requires
            old(self).spec_count() < usize::MAX,
        ensures
            final(self).spec_count() == old(self).spec_count() + 1,
    {
        self.count = self.count + 1;
    }

    /// Called exactly once per terminal exit (success, drop, or abandonment)
    /// of a dequeued envelope.
    pub fn decrement(&mut self)
        requires
            old(self).spec_count() > 0,
        ensures
            final(self).spec_count() == old(self).spec_count() - 1,
    {
        self.count = self.count - 1;
    }

    pub fn count(&self) -> (r: usize)
        ensures
            r == self.spec_count(),
    {
        self.count
    }

    /// True exactly when no envelope is in flight.
    pub fn is_idle(&self) -> (r: bool)
        ensures
            r == (self.spec_count() == 0),
    {
        self.count == 0
    }
}

/// One observable step of an envelope's lifetime, as seen by the counter.
#[derive(Clone, Copy, PartialEq, Eq, Structural)]
pub enum WorkerEvent {
    /// A worker dequeued an envelope and began processing it.
    Dequeue,
    /// A dequeued envelope reached a terminal state: success, drop, or
    /// abandonment.
    Terminal,
}

/// How many dequeue events a history holds.
pub open spec fn dequeues(es: Seq<WorkerEvent>) -> nat
    decreases es.len(),
{
    if es.len() == 0 {
        0
    } else {
        dequeues(es.drop_last()) + if es.last() is Dequeue {
            1nat
        } else {
            0nat
        }
    }
}

/// How many terminal events a history holds.
pub open spec fn terminals(es: Seq<WorkerEvent>) -> nat
    decreases es.len(),
{
    if es.len() == 0 {
        0
    } else {
        terminals(es.drop_last()) + if es.last() is Terminal {
            1nat
        } else {
            0nat
        }
    }
}

/// A history is admissible when no envelope terminates before it was
/// dequeued: every prefix has at least as many dequeues as terminals.
pub open spec fn admissible(es: Seq<WorkerEvent>) -> bool {
    forall|i: int|
        0 <= i <= es.len() ==> terminals(#[trigger] es.subrange(0, i)) <= dequeues(
            es.subrange(0, i),
        )
}

/// The counter value after replaying a history from the idle state.
pub open spec fn active_after(es: Seq<WorkerEvent>) -> int {
    dequeues(es) - terminals(es)
}

/// Idle invariant: over any admissible history the counter never goes
/// negative, and once every one of the dequeued envelopes has reached a
/// terminal state — and only then — the engine is idle again.
pub proof fn lemma_idle_invariant(es: Seq<WorkerEvent>)
    requires
        admissible(es),
    ensures
        active_after(es) >= 0,
        (active_after(es) == 0) <==> (dequeues(es) == terminals(es)),
{
    assert(es.subrange(0, es.len() as int) == es);
    assert(terminals(es) <= dequeues(es));
}

/// The idle transition is exact: an admissible history of n dequeues is idle
/// after its n-th terminal event, and a history still missing a terminal
/// event is not idle.
pub proof fn lemma_idle_transition(es: Seq<WorkerEvent>)
    requires
        admissible(es),
    ensures
        dequeues(es) == terminals(es) ==> active_after(es) == 0,
        terminals(es) < dequeues(es) ==> active_after(es) > 0,
{
    lemma_idle_invariant(es);
}

} // verus!
