//! An in-process model of the bounded channels that connect the
//! trigger sources, the scheduler and the session manager.  A send on
//! the real channel blocks until space is free, so the model's send
//! fails only on a closed queue; the capacity is carried along as
//! data.

use vstd::prelude::*;

verus! {

/// A first-in-first-out queue with a nominal capacity and a closed
/// flag.  The abstract value is the sequence of queued items, oldest
/// first.
pub struct BoundedQueue<T> {
    items: Vec<T>,
    capacity: usize,
    closed: bool,
}

impl<T> BoundedQueue<T> {
    pub closed spec fn view(self) -> Seq<T> {
        self.items@
    }

    pub closed spec fn spec_capacity(self) -> usize {
        self.capacity
    }

    pub closed spec fn is_closed(self) -> bool {
        self.closed
    }

    pub fn new(capacity: usize) -> (r: Self)
        ensures
            r@ == Seq::<T>::empty(),
            r.spec_capacity() == capacity,
            !r.is_closed(),
    {
        BoundedQueue { items: Vec::new(), capacity, closed: false }
    }

    pub fn len(&self) -> (r: usize)
        ensures
            r == self@.len(),
    {
        self.items.len()
    }

    pub fn capacity(&self) -> (r: usize)
        ensures
            r == self.spec_capacity(),
    {
        self.capacity
    }

    pub fn closed(&self) -> (r: bool)
        ensures
            r == self.is_closed(),
    {
        self.closed
    }

    /// Sending on an open queue appends the item; sending on a closed
    /// queue fails and changes nothing.  Blocking for space is the
    /// runtime's concern, not the model's.
    pub fn send(&mut self, item: T) -> (r: bool)
        ensures
            r == !old(self).is_closed(),
            r ==> final(self)@ == old(self)@.push(item),
            !r ==> final(self)@ == old(self)@,
            final(self).is_closed() == old(self).is_closed(),
            final(self).spec_capacity() == old(self).spec_capacity(),
    {
        if self.closed {
            false
        } else {
            self.items.push(item);
            true
        }
    }

    /// Takes the oldest item, if any.
    pub fn recv(&mut self) -> (r: Option<T>)
        ensures
            match r {
                Some(item) => old(self)@.len() > 0 && item == old(self)@[0] && final(self)@ == old(
                    self,
                )@.drop_first(),
                None => old(self)@.len() == 0 && final(self)@ == old(self)@,
            },
            final(self).is_closed() == old(self).is_closed(),
            final(self).spec_capacity() == old(self).spec_capacity(),
    {
        if self.items.len() == 0 {
            None
        } else {
            let item = self.items.remove(0);
            proof {
                assert(self.items@ =~= old(self)@.drop_first());
            }
            Some(item)
        }
    }

    /// Closes the queue: senders fail from here on; queued items can
    /// still be received.
    pub fn close(&mut self)
        ensures
            final(self)@ == old(self)@,
            final(self).is_closed(),
            final(self).spec_capacity() == old(self).spec_capacity(),
    {
        self.closed = true;
    }
}

} // verus!
