//! The live delivery queue: a single-producer, single-consumer FIFO of
//! frames with a close signal.
//!
//! The transport layer pushes frames as they are parsed off the wire and
//! closes the queue when the connection ends; the consumer polls. Frames
//! are delivered exactly once, in arrival order, and everything buffered
//! at the close is still delivered before end-of-stream. The suspension
//! itself (parking a task until the next frame) is transport plumbing and
//! lives outside this crate; this queue is the logic it must follow.
//!
//! A live block that fails to decode is handled by propagate-and-close:
//! the producer pushes nothing for it and closes the queue, so a consumer
//! never sees frames past the first offence. This is the safer of the two
//! defensible policies (the other being skip-and-continue), chosen here
//! so that the live path never silently drops a gap into the middle of a
//! generation.

use crate::response::Response;
use vstd::prelude::*;

verus! {

/// The state of a stream, as contracts see it: the buffered frames in
/// arrival order, and whether the producer has closed the stream.
pub struct StreamModel {
    pub pending: Seq<Response>,
    pub closed: bool,
}

/// One poll of the consumer side.
#[derive(Debug)]
pub enum StreamPoll {
    /// The next frame, in arrival order.
    Item(Response),
    /// The producer closed the stream and everything buffered has been
    /// delivered.
    End,
    /// Nothing buffered yet and the producer is still open.
    Pending,
}

/// A stream starts empty and open.
pub open spec fn spec_new_stream() -> StreamModel {
    StreamModel { pending: Seq::empty(), closed: false }
}

/// Pushing appends to the buffer; pushing after the close is a no-op.
pub open spec fn spec_push(m: StreamModel, f: Response) -> StreamModel {
    if m.closed {
        m
    } else {
        StreamModel { pending: m.pending.push(f), closed: false }
    }
}

/// Closing flips the flag and keeps the buffer.
pub open spec fn spec_close(m: StreamModel) -> StreamModel {
    StreamModel { pending: m.pending, closed: true }
}

/// Polling takes the front frame when one is buffered; on an empty buffer
/// it is end-of-stream when closed and pending otherwise.
pub open spec fn spec_poll(m: StreamModel) -> (StreamModel, StreamPoll) {
    if m.pending.len() > 0 {
        (
            StreamModel { pending: m.pending.skip(1), closed: m.closed },
            StreamPoll::Item(m.pending[0]),
        )
    } else if m.closed {
        (m, StreamPoll::End)
    } else {
        (m, StreamPoll::Pending)
    }
}

/// The frame queue of one live call.
#[derive(Debug)]
pub struct StreamResponse {
    buffered: Vec<Response>,
    closed: bool,
}

impl StreamResponse {
    /// The queue's state.
    pub closed spec fn model(&self) -> StreamModel {
        StreamModel { pending: self.buffered@, closed: self.closed }
    }

    /// A fresh queue: empty and open.
    pub fn new() -> (r: Self)
        ensures
            r.model() == spec_new_stream(),
    {
        let r = StreamResponse { buffered: Vec::new(), closed: false };
        proof {
            assert(r.model().pending =~= spec_new_stream().pending);
        }
        r
    }

    /// Producer side: hand one parsed frame over.
    pub fn push(&mut self, frame: Response)
        ensures
            final(self).model() == spec_push(old(self).model(), frame),
    {
        if !self.closed {
            self.buffered.push(frame);
        }
    }

    /// Producer side: no more frames will come.
    pub fn close(&mut self)
        ensures
            final(self).model() == spec_close(old(self).model()),
    {
        self.closed = true;
    }

    /// Consumer side: one poll.
    pub fn try_next(&mut self) -> (r: StreamPoll)
        ensures
            final(self).model() == spec_poll(old(self).model()).0,
            r == spec_poll(old(self).model()).1,
    {
        if self.buffered.len() > 0 {
            let f = self.buffered.remove(0);
            proof {
                assert(self.buffered@ =~= old(self).buffered@.skip(1));
            }
            StreamPoll::Item(f)
        } else if self.closed {
            StreamPoll::End
        } else {
            StreamPoll::Pending
        }
    }
}

/// The queue's state after `k` successive polls.
pub open spec fn spec_state_after(m: StreamModel, k: nat) -> StreamModel
    decreases k,
{
    if k == 0 {
        m
    } else {
        spec_poll(spec_state_after(m, (k - 1) as nat)).0
    }
}

/// Frames are never reordered, merged or dropped: after any `k` polls the
/// undelivered frames are exactly the buffered ones from `k` on, and the
/// `k`-th poll hands out the `k`-th frame that was pushed.
pub proof fn lemma_poll_order(m: StreamModel, k: nat)
    requires
        k <= m.pending.len(),
    ensures
        spec_state_after(m, k).closed == m.closed,
        spec_state_after(m, k).pending == m.pending.skip(k as int),
        k < m.pending.len() ==> spec_poll(spec_state_after(m, k)).1 == StreamPoll::Item(
            m.pending[k as int],
        ),
    decreases k,
{
    if k == 0 {
        assert(m.pending.skip(0) =~= m.pending);
    } else {
        lemma_poll_order(m, (k - 1) as nat);
        assert(m.pending.skip(k - 1).skip(1) =~= m.pending.skip(k as int));
        assert(m.pending.skip(k - 1)[0] == m.pending[k - 1]);
    }
}

/// Delivery order: frames pushed before the close come out exactly once,
/// in arrival order, and then end-of-stream — the same sequence whether
/// the consumer starts draining before the close or only after it.
pub proof fn lemma_stream_delivery(f1: Response, f2: Response, f3: Response)
    ensures
        ({
            // the consumer starts draining after the close
            let m0 = spec_close(spec_push(spec_push(spec_push(spec_new_stream(), f1), f2), f3));
            let m1 = spec_poll(m0).0;
            let m2 = spec_poll(m1).0;
            let m3 = spec_poll(m2).0;
            &&& spec_poll(m0).1 == StreamPoll::Item(f1)
            &&& spec_poll(m1).1 == StreamPoll::Item(f2)
            &&& spec_poll(m2).1 == StreamPoll::Item(f3)
            &&& spec_poll(m3).1 == StreamPoll::End
        }),
        ({
            // the consumer draws the first frame before the close
            let ma = spec_push(spec_new_stream(), f1);
            let mb = spec_poll(ma).0;
            let mc = spec_close(spec_push(spec_push(mb, f2), f3));
            let md = spec_poll(mc).0;
            let me_ = spec_poll(md).0;
            &&& spec_poll(ma).1 == StreamPoll::Item(f1)
            &&& spec_poll(mc).1 == StreamPoll::Item(f2)
            &&& spec_poll(md).1 == StreamPoll::Item(f3)
            &&& spec_poll(me_).1 == StreamPoll::End
        }),
{
    let e = Seq::<Response>::empty();
    assert(e.push(f1).push(f2).push(f3) =~= seq![f1, f2, f3]);
    assert(seq![f1, f2, f3].skip(1) =~= seq![f2, f3]);
    assert(seq![f2, f3].skip(1) =~= seq![f3]);
    assert(seq![f3].skip(1) =~= e);
    assert(e.push(f1).skip(1) =~= e);
    assert(e.push(f2).push(f3) =~= seq![f2, f3]);
}

} // verus!
