//! A bounded first-in, first-out queue: the mailbox of an actor.

use vstd::prelude::*;
use std::collections::VecDeque;
use crate::error::Error;

verus! {

/// A queue that holds at most `capacity` items and hands them out in the
/// order in which they came.
pub struct Mailbox<T> {
    items: VecDeque<T>,
    capacity: usize,
}

impl<T> View for Mailbox<T> {
    type V = Seq<T>;

    closed spec fn view(&self) -> Seq<T> {
        self.items@
    }
}

impl<T> Mailbox<T> {
    /// The most items the queue takes.
    pub closed spec fn capacity(&self) -> nat {
        self.capacity as nat
    }

    /// The queue never holds more than its capacity.
    pub open spec fn wf(&self) -> bool {
        self@.len() <= self.capacity()
    }

    /// An empty queue for up to `capacity` items.
    pub fn new(capacity: usize) -> (mailbox: Mailbox<T>)
        ensures
            mailbox@ == Seq::<T>::empty(),
            mailbox.capacity() == capacity,
            mailbox.wf(),
    {
        Mailbox { items: VecDeque::new(), capacity }
    }

    /// The number of items waiting.
    pub fn len(&self) -> (n: usize)
        ensures
            n == self@.len(),
    {
        self.items.len()
    }

    /// Whether nothing is waiting.
    pub fn is_empty(&self) -> (empty: bool)
        ensures
            empty == (self@.len() == 0),
    {
        self.items.len() == 0
    }

    /// Whether the queue has no room left.
    pub fn is_full(&self) -> (full: bool)
        ensures
            full == (self@.len() >= self.capacity()),
    {
        self.items.len() >= self.capacity
    }

    /// Appends `item` if there is room, and reports `QueueFull`, leaving the
    /// queue as it was, if there is none.
    pub fn try_send(&mut self, item: T) -> (sent: Result<(), Error>)
        ensures
            final(self).capacity() == old(self).capacity(),
            old(self).wf() ==> final(self).wf(),
            old(self)@.len() < old(self).capacity() ==> sent == Ok::<(), Error>(()) && final(self)@
                == old(self)@.push(item),
            old(self)@.len() >= old(self).capacity() ==> sent == Err::<(), Error>(Error::QueueFull)
                && final(self)@ == old(self)@,
    {
        if self.items.len() < self.capacity {
            self.items.push_back(item);
            Ok(())
        } else {
            Err(Error::QueueFull)
        }
    }

    /// Takes the oldest item out, if there is one.
    pub fn try_recv(&mut self) -> (item: Option<T>)
        ensures
            final(self).capacity() == old(self).capacity(),
            old(self).wf() ==> final(self).wf(),
            old(self)@.len() == 0 ==> item is None && final(self)@ == old(self)@,
            old(self)@.len() > 0 ==> item == Some(old(self)@[0]) && final(self)@ == old(
                self,
            )@.subrange(1, old(self)@.len() as int),
    {
        self.items.pop_front()
    }

    /// The oldest item, left in place.
    pub fn peek(&self) -> (item: Option<&T>)
        ensures
            self@.len() == 0 ==> item is None,
            self@.len() > 0 ==> item == Some(&self@[0]),
    {
        if self.items.len() > 0 {
            Some(&self.items[0])
        } else {
            None
        }
    }

    /// The item at place `i`, counted from the oldest, left in place.
    pub fn get(&self, i: usize) -> (item: &T)
        requires
            i < self@.len(),
        ensures
            *item == self@[i as int],
    {
        &self.items[i]
    }

    /// Drops everything that is waiting.
    pub fn clear(&mut self)
        ensures
            final(self).capacity() == old(self).capacity(),
            final(self)@ == Seq::<T>::empty(),
            final(self).wf(),
    {
        self.items.clear();
    }
}

} // verus!
