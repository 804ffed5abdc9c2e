//! Two buffers of one kind, one read and one written during a pass, which
//! change places between passes.

use vstd::prelude::*;

verus! {

/// A pair of buffers with an active side. During a pass the front buffer is
/// read and the back buffer is written; `swap` makes the back the front.
pub struct DoubleBuffer<T> {
    first: Vec<T>,
    second: Vec<T>,
    first_is_front: bool,
}

impl<T> DoubleBuffer<T> {
    /// The buffer that a pass reads.
    pub closed spec fn front(&self) -> Seq<T> {
        if self.first_is_front {
            self.first@
        } else {
            self.second@
        }
    }

    /// The buffer that a pass writes.
    pub closed spec fn back(&self) -> Seq<T> {
        if self.first_is_front {
            self.second@
        } else {
            self.first@
        }
    }

    /// Makes a pair from the buffer to read first and the one to write first.
    pub fn new(front: Vec<T>, back: Vec<T>) -> (buffers: Self)
        ensures
            buffers.front() == front@,
            buffers.back() == back@,
    {
        DoubleBuffer { first: front, second: back, first_is_front: true }
    }

    /// The buffer that a pass reads.
    pub fn read(&self) -> (front: &Vec<T>)
        ensures
            front@ == self.front(),
    {
        if self.first_is_front {
            &self.first
        } else {
            &self.second
        }
    }

    /// Hands out both sides for a pass: the front to read and the back to
    /// write. What the pass leaves in the back buffer is the back afterwards;
    /// the front cannot change.
    pub fn split(&mut self) -> (sides: (&Vec<T>, &mut Vec<T>))
        ensures
            sides.0@ == old(self).front(),
            sides.1@ == old(self).back(),
            final(self).front() == old(self).front(),
            final(self).back() == final(sides.1)@,
    {
        if self.first_is_front {
            (&self.first, &mut self.second)
        } else {
            (&self.second, &mut self.first)
        }
    }

    /// Ends a pass: what was written becomes what is read, and the buffer
    /// that was read is the one to write next.
    pub fn swap(&mut self)
        ensures
            final(self).front() == old(self).back(),
            final(self).back() == old(self).front(),
    {
        self.first_is_front = !self.first_is_front;
    }
}

} // verus!
