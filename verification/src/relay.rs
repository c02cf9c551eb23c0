//! Relay control state: at most one producer connection, an insertion-ordered
//! set of consumer connections, and the decoder for the current producer's
//! stream.  The surrounding loop performs the socket work — accepts, reads and
//! writes — and hands the results in as plain values; every decision about
//! them is made and verified here.

use crate::decoder::{Decoder, FrameResult, InvalidReason, Verdict, spec_verdict};
use crate::MAX_FRAME_LEN;
use vstd::prelude::*;

verus! {

/// What the relay asks its loop to do after one batch of producer bytes.
#[derive(Debug)]
pub enum RelayAction {
    /// Nothing to do: the frame in progress is still incomplete.
    Idle,
    /// The frame in progress was rejected and its bytes were dropped; the
    /// loop may log the reason.
    Discard(InvalidReason),
    /// A complete validated frame: write these bytes to every consumer.
    Deliver(Vec<u8>),
}

/// The relay's whole mutable state.
pub struct Relay {
    /// A producer connection is currently attached.
    pub producer_connected: bool,
    /// Identifiers of the live consumer connections, in insertion order.
    pub consumers: Vec<u64>,
    /// Accumulation state for the current producer's stream.
    pub decoder: Decoder,
}

impl Relay {
    /// The decoder's accumulation stays within the protocol maximum.
    pub open spec fn wf(&self) -> bool {
        self.decoder.wf()
    }

    /// A fresh relay: no producer, no consumers, empty decoder.
    pub fn new() -> (r: Relay)
        ensures
            !r.producer_connected,
            r.consumers@ == Seq::<u64>::empty(),
            r.decoder@ == Seq::<u8>::empty(),
            r.wf(),
    {
        Relay { producer_connected: false, consumers: Vec::new(), decoder: Decoder::new() }
    }

    /// A new producer connection unconditionally replaces any previous one;
    /// the old connection's partial frame is discarded with it.
    pub fn accept_producer(&mut self)
        ensures
            final(self).producer_connected,
            final(self).consumers@ == old(self).consumers@,
            final(self).decoder@ == Seq::<u8>::empty(),
            final(self).wf(),
    {
        self.producer_connected = true;
        self.decoder.reset();
    }

    /// A new consumer joins at the end of the set and stays there.
    pub fn accept_consumer(&mut self, id: u64)
        ensures
            final(self).producer_connected == old(self).producer_connected,
            final(self).consumers@ == old(self).consumers@.push(id),
            final(self).decoder@ == old(self).decoder@,
            final(self).wf() == old(self).wf(),
    {
        self.consumers.push(id);
    }

    /// Drops every entry for a consumer whose connection proved dead — the
    /// first write failure, rather than retrying forever against a socket
    /// that will never succeed again.  The other consumers keep their order.
    pub fn remove_consumer(&mut self, id: u64)
        ensures
            final(self).producer_connected == old(self).producer_connected,
            final(self).decoder@ == old(self).decoder@,
            final(self).consumers@ == old(self).consumers@.filter(|c: u64| c != id),
            final(self).wf() == old(self).wf(),
    {
        let ghost all = self.consumers@;
        let ghost pred = |c: u64| c != id;
        let mut kept: Vec<u64> = Vec::new();
        let mut k: usize = 0;
        while k < self.consumers.len()
            invariant
                self == old(self),
                all == self.consumers@,
                pred == (|c: u64| c != id),
                k <= all.len(),
                kept@ == all.take(k as int).filter(pred),
            decreases all.len() - k,
        {
            let c = self.consumers[k];
            if c != id {
                kept.push(c);
            }
            k = k + 1;
            proof {
                reveal(Seq::filter);
                let cur = all.take(k as int);
                assert(cur.drop_last() =~= all.take(k as int - 1));
                assert(cur.last() == all[k as int - 1]);
            }
        }
        proof {
            assert(all.take(all.len() as int) =~= all);
        }
        self.consumers = kept;
    }

    /// How many more producer bytes the current frame's buffer can take.
    pub fn capacity_left(&self) -> (n: usize)
        requires
            self.wf(),
        ensures
            n == MAX_FRAME_LEN - self.decoder@.len(),
    {
        self.decoder.capacity_left()
    }

    /// Feeds one batch of bytes read from the producer (with `eof` when the
    /// read reported end-of-stream) into the decoder and decides: keep
    /// waiting, discard a rejected frame, or deliver a complete validated
    /// frame to the consumer set.  The consumer set is never touched here.
    pub fn on_producer_data(&mut self, chunk: &[u8], eof: bool) -> (r: RelayAction)
        requires
            old(self).wf(),
            old(self).producer_connected,
            old(self).decoder@.len() + chunk@.len() <= MAX_FRAME_LEN,
        ensures
            final(self).wf(),
            final(self).producer_connected,
            final(self).consumers@ == old(self).consumers@,
            ({
                let buf = old(self).decoder@ + chunk@;
                match r {
                    RelayAction::Idle => {
                        &&& spec_verdict(buf, eof) == Verdict::Pending
                        &&& final(self).decoder@ == buf
                    },
                    RelayAction::Discard(reason) => {
                        &&& spec_verdict(buf, eof) == Verdict::Rejected(reason)
                        &&& final(self).decoder@ == Seq::<u8>::empty()
                    },
                    RelayAction::Deliver(frame) => {
                        &&& spec_verdict(buf, eof) == Verdict::Accepted
                        &&& frame@ == buf
                        &&& final(self).decoder@ == Seq::<u8>::empty()
                    },
                }
            }),
    {
        match self.decoder.try_decode(chunk, eof) {
            FrameResult::Incomplete => RelayAction::Idle,
            FrameResult::Invalid(reason) => RelayAction::Discard(reason),
            FrameResult::Complete(frame, _total) => RelayAction::Deliver(frame),
        }
    }
}

} // verus!
