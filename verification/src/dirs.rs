//! The direction input queue: a FIFO of pending turns that is never empty.
//! The front entry is the direction currently applied; a proposal is
//! appended only when it is perpendicular to the back-most entry, so the
//! queue never holds a reversal or a same-axis repeat next to its back.

use vstd::prelude::*;
use std::collections::VecDeque;
use crate::grid::Dir;
use crate::grid::perpendicular;

verus! {

/// FIFO buffer of pending turn inputs. Invariant: never empty.
pub struct DirQueue {
    q: VecDeque<Dir>,
}

impl View for DirQueue {
    type V = Seq<Dir>;

    closed spec fn view(&self) -> Seq<Dir> {
        self.q@
    }
}

impl DirQueue {
    /// The queue invariant: at least one direction is always buffered.
    pub open spec fn wf(&self) -> bool {
        self@.len() >= 1
    }

    /// A fresh queue holding only `Right`, the direction a new game faces.
    pub fn new() -> (r: Self)
        ensures
            r.wf(),
            r@ =~= seq![Dir::Right],
    {
        let mut q: VecDeque<Dir> = VecDeque::new();
        q.push_back(Dir::Right);
        DirQueue { q }
    }

    /// Drop everything and hold only `Right` again.
    pub fn reset(&mut self)
        ensures
            final(self).wf(),
            final(self)@ =~= seq![Dir::Right],
    {
        self.q.clear();
        self.q.push_back(Dir::Right);
    }

    /// How many turns are buffered.
    pub fn len(&self) -> (n: usize)
        ensures
            n == self@.len(),
    {
        self.q.len()
    }

    /// The direction currently being applied: the front of the queue.
    pub fn current(&self) -> (d: Dir)
        requires
            self.wf(),
        ensures
            d == self@[0],
    {
        self.q[0]
    }

    /// The most recently accepted direction: the back of the queue.
    pub fn back(&self) -> (d: Dir)
        requires
            self.wf(),
        ensures
            d == self@.last(),
    {
        self.q[self.q.len() - 1]
    }

    /// Append `d` only when it is perpendicular to the back-most entry;
    /// reversals and same-axis repeats are dropped without effect.
    pub fn propose(&mut self, d: Dir) -> (accepted: bool)
        requires
            old(self).wf(),
        ensures
            final(self).wf(),
            accepted == perpendicular(old(self)@.last(), d),
            accepted ==> final(self)@ == old(self)@.push(d),
            !accepted ==> *final(self) == *old(self),
    {
        let back = self.q[self.q.len() - 1];
        let back_vertical = back == Dir::Up || back == Dir::Down;
        let d_vertical = d == Dir::Up || d == Dir::Down;
        if back_vertical != d_vertical {
            self.q.push_back(d);
            true
        } else {
            false
        }
    }

    /// Consume the oldest pending turn on a tick that moves the snake,
    /// unless it is the only entry: one direction always remains.
    pub fn advance(&mut self)
        requires
            old(self).wf(),
        ensures
            final(self).wf(),
            old(self)@.len() > 1 ==> final(self)@ == old(self)@.drop_first(),
            old(self)@.len() == 1 ==> *final(self) == *old(self),
    {
        if 1 < self.q.len() {
            let _popped = self.q.pop_front();
        }
    }
}

} // verus!
