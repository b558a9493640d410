//! Admission control: a counting pool of permits with a queue of waiters
//! served in arrival order, and a closed state in which every request
//! fails at once. The driver suspends a caller while it waits; this type
//! decides who holds a permit.
use vstd::prelude::*;

verus! {

/// The answer to a request for a permit.
#[derive(Clone, Copy, Debug, PartialEq, Eq, Structural)]
pub enum Acquire {
    /// A permit is held by the caller from now on.
    Granted,
    /// The caller waits; a later `release` hands it a permit.
    Queued,
    /// The pool is shutting down.
    Closed,
}

pub struct PermitPool {
    capacity: usize,
    held: usize,
    closed: bool,
    waiting: Vec<u64>,
}

impl PermitPool {
    pub closed spec fn capacity_spec(&self) -> nat {
        self.capacity as nat
    }

    /// Permits held now.
    pub closed spec fn held_spec(&self) -> nat {
        self.held as nat
    }

    pub closed spec fn closed_spec(&self) -> bool {
        self.closed
    }

    /// The tickets of the waiting callers, first arrival first.
    pub closed spec fn waiting_spec(&self) -> Seq<u64> {
        self.waiting@
    }

    /// Never more permits held than the capacity; nobody waits while a
    /// permit is free or after the pool has closed.
    pub open spec fn wf(&self) -> bool {
        &&& self.held_spec() <= self.capacity_spec()
        &&& self.waiting_spec().len() > 0 ==> self.held_spec() == self.capacity_spec()
            && !self.closed_spec()
    }

    pub fn new(capacity: usize) -> (r: PermitPool)
        ensures
            r.wf(),
            r.capacity_spec() == capacity,
            r.held_spec() == 0,
            !r.closed_spec(),
            r.waiting_spec().len() == 0,
    {
        PermitPool { capacity, held: 0, closed: false, waiting: Vec::new() }
    }

    pub fn held(&self) -> (r: usize)
        ensures
            r == self.held_spec(),
    {
        self.held
    }

    pub fn capacity(&self) -> (r: usize)
        ensures
            r == self.capacity_spec(),
    {
        self.capacity
    }

    pub fn is_closed(&self) -> (r: bool)
        ensures
            r == self.closed_spec(),
    {
        self.closed
    }

    pub fn waiting(&self) -> (r: usize)
        ensures
            r == self.waiting_spec().len(),
    {
        self.waiting.len()
    }

    /// Asks for a permit for the caller holding `ticket`: refused when the
    /// pool is closed, granted while one is free, else queued behind the
    /// callers already waiting.
    pub fn acquire(&mut self, ticket: u64) -> (r: Acquire)
        requires
            old(self).wf(),
        ensures
            final(self).wf(),
            final(self).capacity_spec() == old(self).capacity_spec(),
            final(self).closed_spec() == old(self).closed_spec(),
            old(self).closed_spec() ==> r == Acquire::Closed && final(self).held_spec() == old(self).held_spec()
                && final(self).waiting_spec() == old(self).waiting_spec(),
            !old(self).closed_spec() && old(self).held_spec() < old(self).capacity_spec() ==> r == Acquire::Granted
                && final(self).held_spec() == old(self).held_spec() + 1
                && final(self).waiting_spec() == old(self).waiting_spec(),
            !old(self).closed_spec() && old(self).held_spec() == old(self).capacity_spec() ==> r == Acquire::Queued
                && final(self).held_spec() == old(self).held_spec()
                && final(self).waiting_spec() == old(self).waiting_spec().push(ticket),
    {
        if self.closed {
            Acquire::Closed
        } else if self.held < self.capacity {
            self.held = self.held + 1;
            Acquire::Granted
        } else {
            self.waiting.push(ticket);
            Acquire::Queued
        }
    }

    /// Gives back a permit. When callers wait, the permit passes to the
    /// first of them, whose ticket is returned; otherwise it is freed.
    pub fn release(&mut self) -> (r: Option<u64>)
        requires
            old(self).wf(),
            old(self).held_spec() > 0,
        ensures
            final(self).wf(),
            final(self).capacity_spec() == old(self).capacity_spec(),
            final(self).closed_spec() == old(self).closed_spec(),
            old(self).waiting_spec().len() > 0 ==> r == Some(old(self).waiting_spec()[0])
                && final(self).held_spec() == old(self).held_spec()
                && final(self).waiting_spec() == old(self).waiting_spec().drop_first(),
            old(self).waiting_spec().len() == 0 ==> r is None
                && final(self).held_spec() == old(self).held_spec() - 1
                && final(self).waiting_spec().len() == 0,
    {
        if self.waiting.len() > 0 {
            let t = self.waiting.remove(0);
            assert(self.waiting@ =~= old(self).waiting@.drop_first());
            Some(t)
        } else {
            self.held = self.held - 1;
            None
        }
    }

    /// Shuts the pool down. Every waiting caller is turned away (their
    /// tickets are returned, first arrival first) and every later request
    /// fails at once; permits already held are released as usual.
    pub fn close(&mut self) -> (r: Vec<u64>)
        requires
            old(self).wf(),
        ensures
            final(self).wf(),
            final(self).closed_spec(),
            r@ == old(self).waiting_spec(),
            final(self).waiting_spec().len() == 0,
            final(self).held_spec() == old(self).held_spec(),
            final(self).capacity_spec() == old(self).capacity_spec(),
    {
        self.closed = true;
        let mut turned_away: Vec<u64> = Vec::new();
        std::mem::swap(&mut turned_away, &mut self.waiting);
        turned_away
    }
}

} // verus!
