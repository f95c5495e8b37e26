//! The reliable sink: an ordered, mergeable, at-least-once outbound delivery
//! queue. New local edits merge into the still-pending message rather than
//! enqueuing separately; the lowest id is always dispatched first; one message
//! is in flight at a time, immutable once dispatched, retried on timeout and
//! removed on ack.

use crate::counter::RngMsgIdCounter;
use crate::message::{total_len, Message, MessageView, MAX_MERGE_LEN};
use vstd::prelude::*;

verus! {

/// Configuration of a sink: how long to wait for an ack before resending, and
/// how often to resend before giving up.
pub struct SinkConfig {
    pub timeout_ms: u64,
    pub max_retry: u32,
}

impl core::default::Default for SinkConfig {
    fn default() -> (r: Self)
        ensures
            r.timeout_ms == 2000,
            r.max_retry == 3,
    {
        SinkConfig { timeout_ms: 2000, max_retry: 3 }
    }
}

/// The mathematical state of a sink.
pub struct SinkModel {
    pub object_id: Seq<char>,
    /// The id most recently handed out by the counter.
    pub last_id: u64,
    /// Pending messages, oldest (lowest id) first. While `dispatched` holds,
    /// the head is in flight and immutable.
    pub pending: Seq<MessageView>,
    pub dispatched: bool,
    /// Resends already spent on the in-flight message.
    pub attempts: u32,
    pub timeout_ms: u64,
    pub max_retry: u32,
}

impl SinkModel {
    /// Well-formed: pending ids strictly increase, none is newer than the
    /// counter, every message addresses the sink's object, every message
    /// carries a payload, and only a real head can be in flight.
    pub open spec fn wf(self) -> bool {
        &&& forall|i: int, j: int|
            0 <= i < j < self.pending.len() ==> self.pending[i].msg_id < self.pending[j].msg_id
        &&& forall|i: int|
            0 <= i < self.pending.len() ==> #[trigger] self.pending[i].msg_id <= self.last_id
        &&& forall|i: int|
            0 <= i < self.pending.len() ==> #[trigger] self.pending[i].object_id == self.object_id
        &&& forall|i: int|
            0 <= i < self.pending.len() ==> #[trigger] self.pending[i].payloads.len() > 0
        &&& (self.dispatched ==> self.pending.len() > 0)
    }

    /// The index of the oldest message not yet dispatched.
    pub open spec fn first_undispatched(self) -> int {
        if self.dispatched {
            1
        } else {
            0
        }
    }

    /// Whether an undispatched message exists that may absorb another payload.
    pub open spec fn has_mergeable(self) -> bool {
        &&& self.pending.len() > self.first_undispatched()
        &&& total_len(self.pending[self.first_undispatched()].payloads) < MAX_MERGE_LEN
    }

    /// Enqueue a local edit: merge it into the oldest undispatched message if
    /// one can still absorb it, else open a new message under a fresh id.
    pub open spec fn spec_enqueue(self, payload: Seq<u8>) -> SinkModel {
        if self.has_mergeable() {
            let i = self.first_undispatched();
            let m = self.pending[i];
            SinkModel {
                pending: self.pending.update(
                    i,
                    MessageView { payloads: m.payloads.push(payload), ..m },
                ),
                ..self
            }
        } else {
            SinkModel {
                last_id: (self.last_id + 1) as u64,
                pending: self.pending.push(
                    MessageView {
                        object_id: self.object_id,
                        msg_id: (self.last_id + 1) as u64,
                        payloads: seq![payload],
                    },
                ),
                ..self
            }
        }
    }

    /// Acknowledge: the in-flight message with that id leaves the queue,
    /// unblocking the next dispatch. Any other id changes nothing.
    pub open spec fn spec_ack(self, msg_id: u64) -> SinkModel {
        if self.dispatched && self.pending.len() > 0 && self.pending[0].msg_id == msg_id {
            SinkModel {
                pending: self.pending.drop_first(),
                dispatched: false,
                attempts: 0,
                ..self
            }
        } else {
            self
        }
    }

    /// Dispatch: the head goes in flight when nothing is.
    pub open spec fn spec_dispatch(self) -> SinkModel {
        if !self.dispatched && self.pending.len() > 0 {
            SinkModel { dispatched: true, attempts: 0, ..self }
        } else {
            self
        }
    }

    /// An ack-wait timeout: one more resend of the in-flight message is spent,
    /// until the configured attempts are exhausted.
    pub open spec fn spec_retry(self) -> SinkModel {
        if self.dispatched && self.attempts < self.max_retry {
            SinkModel { attempts: (self.attempts + 1) as u32, ..self }
        } else {
            self
        }
    }
}

/// The reliable sink over one target object.
pub struct ReliableSink {
    object_id: String,
    counter: RngMsgIdCounter,
    pending: Vec<Message>,
    dispatched: bool,
    attempts: u32,
    config: SinkConfig,
}

impl View for ReliableSink {
    type V = SinkModel;

    closed spec fn view(&self) -> SinkModel {
        SinkModel {
            object_id: self.object_id@,
            last_id: self.counter.current(),
            pending: self.pending.deep_view(),
            dispatched: self.dispatched,
            attempts: self.attempts,
            timeout_ms: self.config.timeout_ms,
            max_retry: self.config.max_retry,
        }
    }
}

impl ReliableSink {
    /// A fresh sink: empty queue, nothing in flight, counter newly seeded.
    pub fn new(object_id: String, config: SinkConfig) -> (r: Self)
        ensures
            r@.wf(),
            r@.object_id == object_id@,
            r@.pending.len() == 0,
            !r@.dispatched,
            r@.last_id <= crate::counter::SEED_MAX,
            r@.timeout_ms == config.timeout_ms,
            r@.max_retry == config.max_retry,
    {
        let r = ReliableSink {
            object_id,
            counter: RngMsgIdCounter::new(),
            pending: Vec::new(),
            dispatched: false,
            attempts: 0,
            config,
        };
        proof {
            assert(r.pending.deep_view() =~~= Seq::<MessageView>::empty());
        }
        r
    }

    /// How long the dispatch loop waits for an ack before resending.
    pub fn timeout_ms(&self) -> (r: u64)
        ensures
            r == self@.timeout_ms,
    {
        self.config.timeout_ms
    }

    /// Whether another edit can be enqueued: either a pending message can
    /// still absorb it, or the id space has room for a new one.
    pub fn can_enqueue(&self) -> (r: bool)
        ensures
            r == (self@.has_mergeable() || self@.last_id < u64::MAX),
    {
        let fu: usize = if self.dispatched {
            1
        } else {
            0
        };
        if fu < self.pending.len() && self.pending[fu].can_merge() {
            true
        } else {
            self.counter.current_value() < u64::MAX
        }
    }

    /// Enqueue a local edit: if an undispatched message can still absorb it,
    /// merge — no new id is spent; else build a new message under the next id.
    pub fn enqueue_or_merge(&mut self, payload: Vec<u8>)
        requires
            old(self)@.wf(),
            old(self)@.has_mergeable() || old(self)@.last_id < u64::MAX,
        ensures
            final(self)@ == old(self)@.spec_enqueue(payload@),
            final(self)@.wf(),
    {
        let ghost pre = self@;
        let fu: usize = if self.dispatched {
            1
        } else {
            0
        };
        if fu < self.pending.len() && self.pending[fu].can_merge() {
            let mut m = self.pending.remove(fu);
            m.merge_payload(payload);
            self.pending.insert(fu, m);
            proof {
                assert(self.pending.deep_view() =~~= pre.spec_enqueue(payload@).pending);
                assert(self@ == pre.spec_enqueue(payload@));
            }
        } else {
            let id = self.counter.next();
            let msg = Message::new(self.object_id.clone(), id, payload);
            self.pending.push(msg);
            proof {
                assert(self.pending.deep_view() =~~= pre.spec_enqueue(payload@).pending);
                assert(self@ == pre.spec_enqueue(payload@));
            }
        }
    }

    /// Acknowledge the in-flight message; its id is the sole matching key.
    pub fn ack(&mut self, msg_id: u64)
        requires
            old(self)@.wf(),
        ensures
            final(self)@ == old(self)@.spec_ack(msg_id),
            final(self)@.wf(),
    {
        let ghost pre = self@;
        if self.dispatched && self.pending.len() > 0 && self.pending[0].msg_id == msg_id {
            self.pending.remove(0);
            self.dispatched = false;
            self.attempts = 0;
            proof {
                assert(self.pending.deep_view() =~~= pre.pending.drop_first());
                assert(self@ == pre.spec_ack(msg_id));
            }
        }
    }

    /// Put the head message in flight and hand out a copy to send. Nothing is
    /// handed out while a message is already in flight or the queue is empty.
    pub fn dispatch_next(&mut self) -> (r: Option<Message>)
        requires
            old(self)@.wf(),
        ensures
            final(self)@ == old(self)@.spec_dispatch(),
            final(self)@.wf(),
            r is Some <==> (!old(self)@.dispatched && old(self)@.pending.len() > 0),
            r matches Some(m) ==> m@ == old(self)@.pending[0],
    {
        if !self.dispatched && self.pending.len() > 0 {
            self.dispatched = true;
            self.attempts = 0;
            Some(self.pending[0].clone())
        } else {
            None
        }
    }

    /// On an ack-wait timeout, hand out the same in-flight message again —
    /// never re-merged — until the configured attempts are exhausted; after
    /// that nothing is handed out and the message stays unacked.
    pub fn on_retry_timeout(&mut self) -> (r: Option<Message>)
        requires
            old(self)@.wf(),
        ensures
            final(self)@ == old(self)@.spec_retry(),
            final(self)@.wf(),
            r is Some <==> (old(self)@.dispatched && old(self)@.attempts < old(self)@.max_retry),
            r matches Some(m) ==> m@ == old(self)@.pending[0],
    {
        if self.dispatched && self.attempts < self.config.max_retry {
            self.attempts = self.attempts + 1;
            Some(self.pending[0].clone())
        } else {
            None
        }
    }
}

/// In a well-formed sink the head carries the lowest id of the queue: per
/// target, delivery order is strictly increasing by message id.
pub proof fn lemma_head_is_oldest(s: SinkModel)
    requires
        s.wf(),
        s.pending.len() > 0,
    ensures
        forall|i: int|
            0 < i < s.pending.len() ==> s.pending[0].msg_id < (#[trigger] s.pending[i]).msg_id,
{
}

/// Two enqueues before the first dispatch coalesce: they leave exactly one
/// pending message whose payloads are both inputs in order, and they consume
/// exactly one id. This needs the first payload to leave room to merge.
pub proof fn lemma_enqueue_coalesces(s: SinkModel, first: Seq<u8>, second: Seq<u8>)
    requires
        s.wf(),
        s.pending.len() == 0,
        !s.dispatched,
        s.last_id < u64::MAX,
        first.len() < MAX_MERGE_LEN,
    ensures
        ({
            let s2 = s.spec_enqueue(first).spec_enqueue(second);
            &&& s2.pending.len() == 1
            &&& s2.pending[0].payloads == seq![first, second]
            &&& s2.last_id == s.last_id + 1
        }),
{
    let s1 = s.spec_enqueue(first);
    assert(!s.has_mergeable());
    assert(s1.pending.len() == 1);
    assert(s1.pending[0].payloads =~= seq![first]);
    assert(total_len(seq![first]) == total_len(Seq::<Seq<u8>>::empty()) + first.len()) by {
        assert(seq![first].drop_last() =~= Seq::<Seq<u8>>::empty());
    }
    assert(s1.has_mergeable());
    let s2 = s1.spec_enqueue(second);
    assert(s2.pending[0].payloads =~= seq![first, second]);
}

} // verus!
