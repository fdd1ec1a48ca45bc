//! Fixed-capacity FIFO mailboxes connecting the cooperative tasks.
//!
//! Each mailbox has one producer domain and one consumer; its view is the
//! sequence of queued values, front first. A full mailbox never drops: the
//! checked operations report the condition and leave the queue untouched,
//! and the task runner suspends the producer until room exists.

use vstd::prelude::*;

verus! {

/// How many values a mailbox holds at most.
pub const MAILBOX_CAPACITY: usize = 10;

/// A bounded FIFO queue of one message type.
pub struct Mailbox<T> {
    items: Vec<T>,
}

impl<T> View for Mailbox<T> {
    type V = Seq<T>;

    closed spec fn view(&self) -> Seq<T> {
        self.items@
    }
}

impl<T> Mailbox<T> {
    /// The queue never exceeds its capacity.
    pub open spec fn wf(&self) -> bool {
        self@.len() <= MAILBOX_CAPACITY
    }

    /// A fresh, empty mailbox.
    pub fn new() -> (r: Self)
        ensures
            r.wf(),
            r@ == Seq::<T>::empty(),
    {
        let r = Mailbox { items: Vec::new() };
        proof {
            assert(r@ =~= Seq::<T>::empty());
        }
        r
    }

    /// How many values are queued.
    pub fn len(&self) -> (r: usize)
        ensures
            r == self@.len(),
    {
        self.items.len()
    }

    /// Whether the mailbox holds nothing.
    pub fn is_empty(&self) -> (r: bool)
        ensures
            r == (self@.len() == 0),
    {
        self.items.len() == 0
    }

    /// Whether the mailbox has no room left.
    pub fn is_full(&self) -> (r: bool)
        ensures
            r == (self@.len() >= MAILBOX_CAPACITY),
    {
        self.items.len() >= MAILBOX_CAPACITY
    }

    /// Enqueues `value` at the back; the caller has made sure there is room.
    pub fn send(&mut self, value: T)
        requires
            old(self).wf(),
            old(self)@.len() < MAILBOX_CAPACITY,
        ensures
            final(self).wf(),
            final(self)@ == old(self)@.push(value),
    {
        self.items.push(value);
    }

    /// Enqueues `value` if there is room and says whether it was taken; a
    /// full mailbox is left untouched.
    pub fn try_send(&mut self, value: T) -> (r: bool)
        requires
            old(self).wf(),
        ensures
            final(self).wf(),
            r == (old(self)@.len() < MAILBOX_CAPACITY),
            r ==> final(self)@ == old(self)@.push(value),
            !r ==> final(self)@ == old(self)@,
    {
        if self.items.len() < MAILBOX_CAPACITY {
            self.items.push(value);
            true
        } else {
            false
        }
    }

    /// Dequeues the front value; the caller has made sure one is queued.
    pub fn receive(&mut self) -> (r: T)
        requires
            old(self).wf(),
            old(self)@.len() > 0,
        ensures
            final(self).wf(),
            r == old(self)@[0],
            final(self)@ == old(self)@.skip(1),
    {
        let r = self.items.remove(0);
        proof {
            assert(self@ =~= old(self)@.skip(1));
        }
        r
    }

    /// Dequeues the front value if one is queued; an empty mailbox is left
    /// untouched.
    pub fn try_receive(&mut self) -> (r: Option<T>)
        requires
            old(self).wf(),
        ensures
            final(self).wf(),
            match r {
                Some(v) => old(self)@.len() > 0 && v == old(self)@[0] && final(self)@ == old(
                    self,
                )@.skip(1),
                None => old(self)@.len() == 0 && final(self)@ == old(self)@,
            },
    {
        if self.items.len() == 0 {
            None
        } else {
            let r = self.items.remove(0);
            proof {
                assert(self@ =~= old(self)@.skip(1));
            }
            Some(r)
        }
    }
}

} // verus!
