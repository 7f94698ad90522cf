//! The per-channel queue of revokeable outputs that wait for their revocation.

use vstd::prelude::*;
use std::collections::VecDeque;
use crate::ids::RevokeableOutput;

verus! {

/// Revokeable outputs in the order in which their commitments were signed. Outputs join at the
/// back and leave at the front; nothing is ever skipped or reordered.
pub struct PendingQueue {
    entries: VecDeque<RevokeableOutput>,
}

impl View for PendingQueue {
    type V = Seq<RevokeableOutput>;

    closed spec fn view(&self) -> Seq<RevokeableOutput> {
        self.entries@
    }
}

impl PendingQueue {
    /// An empty queue.
    pub fn new() -> (queue: Self)
        ensures
            queue@ == Seq::<RevokeableOutput>::empty(),
    {
        PendingQueue { entries: VecDeque::new() }
    }

    /// The number of outputs that wait.
    pub fn len(&self) -> (len: usize)
        ensures
            len == self@.len(),
    {
        self.entries.len()
    }

    /// Whether no output waits.
    pub fn is_empty(&self) -> (empty: bool)
        ensures
            empty == (self@.len() == 0),
    {
        self.entries.len() == 0
    }

    /// Appends `output` at the back.
    pub fn enqueue(&mut self, output: RevokeableOutput)
        ensures
            final(self)@ == old(self)@.push(output),
    {
        self.entries.push_back(output);
    }

    /// Appends `outputs` at the back, in their order.
    pub fn extend(&mut self, outputs: &Vec<RevokeableOutput>)
        ensures
            final(self)@ == old(self)@ + outputs@,
    {
        let mut i: usize = 0;
        while i < outputs.len()
            invariant
                i <= outputs.len(),
                self@ == old(self)@ + outputs@.take(i as int),
            decreases outputs.len() - i,
        {
            self.enqueue(outputs[i]);
            i += 1;
        }
    }

    /// The output that has waited longest, if any. The queue keeps it.
    pub fn peek_front(&self) -> (front: Option<RevokeableOutput>)
        ensures
            front == (if self@.len() > 0 {
                Some(self@[0])
            } else {
                None
            }),
    {
        if self.entries.len() == 0 {
            None
        } else {
            Some(self.entries[0])
        }
    }

    /// Removes the output that has waited longest, if any, and returns it.
    pub fn pop_front(&mut self) -> (front: Option<RevokeableOutput>)
        ensures
            front == (if old(self)@.len() > 0 {
                Some(old(self)@[0])
            } else {
                None
            }),
            final(self)@ == (if old(self)@.len() > 0 {
                old(self)@.skip(1)
            } else {
                old(self)@
            }),
    {
        let front = self.entries.pop_front();
        front
    }
}

} // verus!
