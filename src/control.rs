//! The per-communicator control worker: frames each message with its length
//! and decides which data stream carries each bucket of its body.

use vstd::prelude::*;
use crate::bucket::{plan_buckets, spec_bucket_count, spec_plan, Bucket};
use crate::error::{inner_error, BaguaNetError};
use crate::frame::{
    be_bytes, be_u64, decode_header, encode_header, header_stream, lemma_header_stream_in_order,
};

verus! {

/// Round-robin state of one communicator direction. Both ends of a connection
/// run one of these from the same configuration, so they agree on every bucket.
#[derive(Debug, Clone, Copy)]
pub struct ControlWorker {
    /// Number of data streams.
    pub nstreams: usize,
    /// Messages shorter than this travel as a single bucket.
    pub task_split_threshold: usize,
    /// Stream that receives the next bucket.
    pub downstream_id: usize,
}

/// What the sender puts on the wire for one message: the header for the
/// control connection, then the buckets for the data streams.
#[derive(Debug, Clone)]
pub struct OutgoingMessage {
    /// The body's length, big-endian.
    pub header: [u8; 8],
    /// Where each run of the body goes, in body order.
    pub buckets: Vec<Bucket>,
}

impl ControlWorker {
    /// At least one stream, and the cursor points at one of them.
    pub open spec fn wf(&self) -> bool {
        self.nstreams >= 1 && self.downstream_id < self.nstreams
    }

    /// The buckets of a `len`-byte message planned from this state.
    pub open spec fn plan_for(&self, len: int) -> Seq<Bucket> {
        spec_plan(len, self.nstreams as int, self.task_split_threshold as int, self.downstream_id as int)
    }

    /// The state after planning a `len`-byte message: the cursor has moved on by
    /// one stream per bucket.
    pub open spec fn after(&self, len: int) -> ControlWorker {
        ControlWorker {
            downstream_id: ((self.downstream_id + spec_bucket_count(
                len,
                self.nstreams as int,
                self.task_split_threshold as int,
            )) % (self.nstreams as int)) as usize,
            ..*self
        }
    }

    /// The state after planning messages of the given lengths, in order.
    pub open spec fn after_all(&self, lens: Seq<u64>) -> ControlWorker
        decreases lens.len(),
    {
        if lens.len() == 0 {
            *self
        } else {
            self.after_all(lens.drop_last()).after(lens.last() as int)
        }
    }

    /// A fresh worker whose first bucket goes to stream 0.
    pub fn new(nstreams: usize, task_split_threshold: usize) -> (r: ControlWorker)
        requires
            nstreams >= 1,
        ensures
            r.wf(),
            r == (ControlWorker { nstreams, task_split_threshold, downstream_id: 0 }),
    {
        ControlWorker { nstreams, task_split_threshold, downstream_id: 0 }
    }

    /// Plans the buckets of a `len`-byte message and moves the cursor past them.
    pub fn plan_message(&mut self, len: usize) -> (r: Vec<Bucket>)
        requires
            old(self).wf(),
        ensures
            final(self).wf(),
            r@ == old(self).plan_for(len as int),
            *final(self) == old(self).after(len as int),
    {
        let r = plan_buckets(len, self.nstreams, self.task_split_threshold, self.downstream_id);
        proof {
            crate::bucket::lemma_bucket_conservation(
                len,
                self.nstreams,
                self.task_split_threshold,
                self.downstream_id,
            );
        }
        let count = r.len();
        let d = self.downstream_id;
        let n = self.nstreams;
        let next: usize = if count >= n - d {
            count - (n - d)
        } else {
            d + count
        };
        proof {
            let x = d + count;
            if count >= n - d {
                vstd::arithmetic::div_mod::lemma_mod_add_multiples_vanish(x - n, n as int);
                vstd::arithmetic::div_mod::lemma_small_mod((x - n) as nat, n as nat);
            } else {
                vstd::arithmetic::div_mod::lemma_small_mod(x as nat, n as nat);
            }
        }
        self.downstream_id = next;
        r
    }

    /// Sender side: the header and the buckets of a `len`-byte message.
    pub fn send_message(&mut self, len: usize) -> (r: OutgoingMessage)
        requires
            old(self).wf(),
        ensures
            final(self).wf(),
            r.header@ == be_bytes(len as u64),
            r.buckets@ == old(self).plan_for(len as int),
            *final(self) == old(self).after(len as int),
    {
        let header = encode_header(len as u64);
        let buckets = self.plan_message(len);
        OutgoingMessage { header, buckets }
    }

    /// Receiver side: reads the length a header announces and plans where its
    /// bytes land in a buffer of `capacity` bytes. A length the buffer cannot
    /// hold is refused and leaves the state as it was.
    pub fn receive_header(&mut self, header: &[u8; 8], capacity: usize) -> (r: Result<
        Vec<Bucket>,
        BaguaNetError,
    >)
        requires
            old(self).wf(),
        ensures
            final(self).wf(),
            be_u64(header@) > capacity ==> r is Err && r->Err_0 is InnerError && *final(self)
                == *old(self),
            be_u64(header@) <= capacity ==> r is Ok && r->Ok_0@ == old(self).plan_for(
                be_u64(header@) as int,
            ) && *final(self) == old(self).after(be_u64(header@) as int),
    {
        let len = decode_header(header);
        if len > capacity as u64 {
            return Err(inner_error("announced length exceeds the receive buffer"));
        }
        Ok(self.plan_message(len as usize))
    }
}

/// Both ends stay in step: a receiver in the same state as the sender decodes
/// the sender's header to the sent length, plans the very same buckets, and
/// ends in the same state.
pub proof fn lemma_ends_agree(sender: ControlWorker, receiver: ControlWorker, len: u64)
    requires
        sender.wf(),
        receiver == sender,
    ensures
        be_u64(be_bytes(len)) == len,
        receiver.plan_for(be_u64(be_bytes(len)) as int) == sender.plan_for(len as int),
        receiver.after(be_u64(be_bytes(len)) as int) == sender.after(len as int),
        sender.after(len as int).wf(),
{
    crate::frame::lemma_header_round_trip(len);
}

proof fn lemma_after_all_wf(w: ControlWorker, lens: Seq<u64>)
    requires
        w.wf(),
    ensures
        w.after_all(lens).wf(),
    decreases lens.len(),
{
    if lens.len() > 0 {
        lemma_after_all_wf(w, lens.drop_last());
    }
}

/// Messages keep their order on a communicator: when the sender sends
/// messages of lengths `lens` in turn, the receiver, starting from the same
/// state and reading the headers off the control connection in turn, decodes
/// each one to the length sent, reaches each message in the sender's state,
/// and so plans the `k`-th message exactly as the sender did.
pub proof fn lemma_messages_in_order(w: ControlWorker, lens: Seq<u64>, k: int)
    requires
        w.wf(),
        0 <= k < lens.len(),
    ensures
        ({
            let decoded = Seq::new(
                lens.len(),
                |j: int| be_u64(header_stream(lens).subrange(8 * j, 8 * j + 8)),
            );
            &&& decoded == lens
            &&& w.after_all(decoded.take(k)) == w.after_all(lens.take(k))
            &&& w.after_all(lens.take(k)).wf()
            &&& w.after_all(decoded.take(k)).plan_for(decoded[k] as int) == w.after_all(
                lens.take(k),
            ).plan_for(lens[k] as int)
        }),
{
    let decoded = Seq::new(
        lens.len(),
        |j: int| be_u64(header_stream(lens).subrange(8 * j, 8 * j + 8)),
    );
    assert forall|j: int| 0 <= j < lens.len() implies decoded[j] == lens[j] by {
        lemma_header_stream_in_order(lens, j);
    }
    assert(decoded =~= lens);
    lemma_after_all_wf(w, lens.take(k));
}

} // verus!
