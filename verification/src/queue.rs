//! The bounded FIFO connecting caller and workers. A full queue admits
//! nothing — the producer suspends instead of dropping — and that refusal is
//! the engine's sole admission-control mechanism.

use vstd::prelude::*;
use std::collections::VecDeque;

verus! {

/// Whether a queue holding `len` items out of `cap` admits one more.
pub open spec fn spec_admits(len: nat, cap: nat) -> bool {
    len < cap
}

/// A bounded FIFO of envelope (or response) texts.
pub struct BoundedQueue {
    items: VecDeque<String>,
    capacity: usize,
}

impl BoundedQueue {
    /// The queued items, oldest first.
    pub closed spec fn spec_items(self) -> Seq<String> {
        self.items@
    }

    pub closed spec fn spec_capacity(self) -> nat {
        self.capacity as nat
    }

    pub open spec fn wf(self) -> bool {
        self.spec_items().len() <= self.spec_capacity()
    }

    pub fn new(capacity: usize) -> (r: BoundedQueue)
        ensures
            r.wf(),
            r.spec_items() == Seq::<String>::empty(),
            r.spec_capacity() == capacity,
    {
        BoundedQueue { items: VecDeque::new(), capacity }
    }

    pub fn len(&self) -> (r: usize)
        ensures
            r == self.spec_items().len(),
    {
        self.items.len()
    }

    pub fn capacity(&self) -> (r: usize)
        ensures
            r == self.spec_capacity(),
    {
        self.capacity
    }

    /// Admission control: the item enters at the back exactly when the queue
    /// has room; a full queue leaves both the queue and the item's place
    /// unclaimed, and the caller must wait for a dequeue.
    pub fn try_enqueue(&mut self, item: String) -> (r: bool)
        requires
            old(self).wf(),
        ensures
            final(self).wf(),
            final(self).spec_capacity() == old(self).spec_capacity(),
            r == spec_admits(old(self).spec_items().len(), old(self).spec_capacity()),
            r ==> final(self).spec_items() == old(self).spec_items().push(item),
            !r ==> final(self).spec_items() == old(self).spec_items(),
    {
        if self.items.len() < self.capacity {
            self.items.push_back(item);
            true
        } else {
            false
        }
    }

    /// Remove and return the oldest item, if any. Exactly the empty queue
    /// returns nothing.
    pub fn dequeue(&mut self) -> (r: Option<String>)
        requires
            old(self).wf(),
        ensures
            final(self).wf(),
            final(self).spec_capacity() == old(self).spec_capacity(),
            r is Some <==> old(self).spec_items().len() > 0,
            r is Some ==> r->0 == old(self).spec_items()[0] && final(self).spec_items() == old(
                self,
            ).spec_items().skip(1),
            r is None ==> final(self).spec_items() == old(self).spec_items(),
    {
        self.items.pop_front()
    }
}

/// Backpressure: a queue that already holds its full capacity admits no
/// further item, and one dequeue frees exactly the room the next submission
/// needs.
pub proof fn lemma_backpressure(len: nat, cap: nat)
    requires
        len == cap,
    ensures
        !spec_admits(len, cap),
        cap > 0 ==> spec_admits((len - 1) as nat, cap),
{
}

} // verus!
