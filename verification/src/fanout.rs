//! Fan-out over the consumer set: one frame is written to every consumer in
//! set order, each write independent of the others.  The caller performs the
//! actual writes and reports each outcome; a failure is recorded and never
//! stops the remaining deliveries.  At-most-once, best-effort, no retries.

use vstd::prelude::*;

verus! {

/// One broadcast of one frame to an ordered set of consumers, identified by
/// plain connection identifiers.  `next` is the consumer whose write is due;
/// `delivered` collects, in set order, the consumers whose write succeeded.
pub struct Fanout {
    pub frame: Vec<u8>,
    pub targets: Vec<u64>,
    pub next: usize,
    pub delivered: Vec<u64>,
}

impl Fanout {
    /// Every delivery already recorded targeted an earlier consumer.
    pub open spec fn wf(&self) -> bool {
        self.next <= self.targets@.len() && self.delivered@.len() <= self.next
    }

    /// Starts a broadcast of `frame` to `targets`, nothing attempted yet.
    pub fn new(frame: Vec<u8>, targets: Vec<u64>) -> (f: Fanout)
        ensures
            f.frame@ == frame@,
            f.targets@ == targets@,
            f.next == 0,
            f.delivered@ == Seq::<u64>::empty(),
            f.wf(),
    {
        Fanout { frame, targets, next: 0, delivered: Vec::new() }
    }

    /// The consumer whose write is due next, or nothing when every consumer
    /// has been attempted.
    pub fn current_target(&self) -> (r: Option<u64>)
        ensures
            r == if self.next < self.targets@.len() {
                Some(self.targets@[self.next as int])
            } else {
                Option::<u64>::None
            },
    {
        if self.next < self.targets.len() {
            Some(self.targets[self.next])
        } else {
            None
        }
    }

    /// The exact bytes to write to each consumer: the frame verbatim.
    pub fn frame_bytes(&self) -> (r: &Vec<u8>)
        ensures
            r@ == self.frame@,
    {
        &self.frame
    }

    /// Records the outcome of the write to the current consumer and moves on
    /// to the following one — whether the write succeeded or failed, so one
    /// broken consumer never blocks delivery to the rest.
    pub fn record_outcome(&mut self, ok: bool)
        requires
            old(self).wf(),
            old(self).next < old(self).targets@.len(),
        ensures
            final(self).wf(),
            final(self).frame@ == old(self).frame@,
            final(self).targets@ == old(self).targets@,
            final(self).next == old(self).next + 1,
            final(self).delivered@ == if ok {
                old(self).delivered@.push(old(self).targets@[old(self).next as int])
            } else {
                old(self).delivered@
            },
    {
        let target_count = self.targets.len();
        if ok {
            let id = self.targets[self.next];
            self.delivered.push(id);
        }
        proof {
            assert(self.next < target_count);
        }
        self.next = self.next + 1;
    }

    /// Every consumer in the set has had its one delivery attempt.
    pub fn finished(&self) -> (r: bool)
        ensures
            r == (self.next == self.targets@.len()),
    {
        self.next == self.targets.len()
    }

    /// The consumers that received the frame, in set order.
    pub fn delivered_to(&self) -> (r: &Vec<u64>)
        ensures
            r@ == self.delivered@,
    {
        &self.delivered
    }
}

} // verus!
