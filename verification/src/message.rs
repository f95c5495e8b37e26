//! The outbound message: a monotonic id, a target object id, and ordered
//! payload fragments. A message is mergeable while it waits — a new local
//! edit is pushed onto its payloads — and its fragments collapse into one
//! update blob when it is handed to the transport.

use crate::codec;
use vstd::prelude::*;

verus! {

/// A pending message may absorb further payloads only while their total
/// length stays under this bound.
pub const MAX_MERGE_LEN: usize = 1024;

/// The mathematical content of a message.
pub struct MessageView {
    pub object_id: Seq<char>,
    pub msg_id: u64,
    pub payloads: Seq<Seq<u8>>,
}

/// One outbound message of the delivery queue.
#[derive(Debug)]
pub struct Message {
    pub object_id: String,
    pub msg_id: u64,
    pub payloads: Vec<Vec<u8>>,
}

impl View for Message {
    type V = MessageView;

    open spec fn view(&self) -> MessageView {
        MessageView {
            object_id: self.object_id@,
            msg_id: self.msg_id,
            payloads: self.payloads.deep_view(),
        }
    }
}

impl DeepView for Message {
    type V = MessageView;

    open spec fn deep_view(&self) -> MessageView {
        self.view()
    }
}

/// The summed length of a message's payload fragments.
pub open spec fn total_len(payloads: Seq<Seq<u8>>) -> nat
    decreases payloads.len(),
{
    if payloads.len() == 0 {
        0
    } else {
        total_len(payloads.drop_last()) + payloads.last().len()
    }
}

/// Errors of the delivery queue and the coordinator around it.
#[derive(Debug)]
pub enum CollabError {
    /// A payload fragment did not parse as an encoded update.
    Internal,
}

impl Message {
    /// Build a message around its first payload.
    pub fn new(object_id: String, msg_id: u64, payload: Vec<u8>) -> (r: Self)
        ensures
            r@.object_id == object_id@,
            r@.msg_id == msg_id,
            r@.payloads == seq![payload@],
    {
        let payloads = vec![payload];
        proof {
            assert(payloads.deep_view() =~~= seq![payload@]);
        }
        Message { object_id, msg_id, payloads }
    }

    /// Absorb one more local edit into a still-pending message.
    pub fn merge_payload(&mut self, payload: Vec<u8>)
        ensures
            final(self)@.object_id == old(self)@.object_id,
            final(self)@.msg_id == old(self)@.msg_id,
            final(self)@.payloads == old(self)@.payloads.push(payload@),
    {
        self.payloads.push(payload);
        proof {
            assert(self.payloads.deep_view() =~~= old(self).payloads.deep_view().push(payload@));
        }
    }

    /// The summed length of the payload fragments, saturating at usize::MAX.
    pub fn payload_len(&self) -> (r: usize)
        ensures
            total_len(self@.payloads) <= usize::MAX ==> r == total_len(self@.payloads),
            total_len(self@.payloads) > usize::MAX ==> r == usize::MAX,
    {
        let mut acc: usize = 0;
        let mut i: usize = 0;
        while i < self.payloads.len()
            invariant
                0 <= i <= self.payloads.len(),
                total_len(self@.payloads.take(i as int)) <= usize::MAX ==> acc == total_len(
                    self@.payloads.take(i as int),
                ),
                total_len(self@.payloads.take(i as int)) > usize::MAX ==> acc == usize::MAX,
            decreases self.payloads.len() - i,
        {
            let l = self.payloads[i].len();
            proof {
                assert(self@.payloads.take(i + 1).drop_last() =~= self@.payloads.take(i as int));
                assert(self@.payloads.take(i + 1).last() == self@.payloads[i as int]);
            }
            if usize::MAX - acc < l {
                acc = usize::MAX;
            } else {
                acc = acc + l;
            }
            i = i + 1;
        }
        proof {
            assert(self@.payloads.take(self.payloads.len() as int) =~= self@.payloads);
        }
        acc
    }

    /// Same summed length, under the name the delivery queue's message
    /// contract uses.
    pub fn length(&self) -> (r: usize)
        ensures
            total_len(self@.payloads) <= usize::MAX ==> r == total_len(self@.payloads),
            total_len(self@.payloads) > usize::MAX ==> r == usize::MAX,
    {
        self.payload_len()
    }

    /// Whether the message may still absorb another payload.
    pub fn can_merge(&self) -> (r: bool)
        ensures
            r == (total_len(self@.payloads) < MAX_MERGE_LEN),
    {
        self.payload_len() < MAX_MERGE_LEN
    }

    /// Collapse the payload fragments into one update blob carrying exactly
    /// their operations together, keyed by the message id. Fails exactly when
    /// some fragment does not parse as an encoded update.
    pub fn into_payload(self) -> (r: Result<(u64, Vec<u8>), CollabError>)
        ensures
            r is Ok <==> codec::all_decode(self@.payloads),
            r matches Ok((id, blob)) ==> id == self@.msg_id && codec::update_ops(blob@)
                == codec::ops_union(self@.payloads) && codec::decodes(blob@),
    {
        match codec::merge_updates(&self.payloads) {
            Some(blob) => Ok((self.msg_id, blob)),
            None => Err(CollabError::Internal),
        }
    }

    /// A short description of the message: the object id, the message id and
    /// the payload length, computed here and rendered by the format wrapper.
    pub fn describe(&self) -> String {
        let len = self.payload_len();
        format_description(&self.object_id, self.msg_id, len)
    }
}

/// Relies on std's format machinery to render a message description from the
/// values handed in.
#[verifier::external_body]
fn format_description(object_id: &String, msg_id: u64, payload_len: usize) -> String {
    format!("send {} update: [msg_id:{}|payload_len:{}]", object_id, msg_id, payload_len)
}

/// Messages compare by id alone: the id is the sole ack-matching key.
impl PartialEq for Message {
    fn eq(&self, other: &Self) -> (r: bool) {
        self.msg_id == other.msg_id
    }
}

impl vstd::std_specs::cmp::PartialEqSpecImpl for Message {
    open spec fn obeys_eq_spec() -> bool {
        true
    }

    open spec fn eq_spec(&self, other: &Self) -> bool {
        self.msg_id == other.msg_id
    }
}

impl Eq for Message {

}

/// Messages order by id, reversed: the lowest id is the greatest, so the
/// oldest pending message is always dispatched first.
impl PartialOrd for Message {
    fn partial_cmp(&self, other: &Self) -> (r: Option<core::cmp::Ordering>) {
        if self.msg_id < other.msg_id {
            Some(core::cmp::Ordering::Greater)
        } else if self.msg_id == other.msg_id {
            Some(core::cmp::Ordering::Equal)
        } else {
            Some(core::cmp::Ordering::Less)
        }
    }
}

impl vstd::std_specs::cmp::PartialOrdSpecImpl for Message {
    open spec fn obeys_partial_cmp_spec() -> bool {
        true
    }

    open spec fn partial_cmp_spec(&self, other: &Self) -> Option<core::cmp::Ordering> {
        if self.msg_id < other.msg_id {
            Some(core::cmp::Ordering::Greater)
        } else if self.msg_id == other.msg_id {
            Some(core::cmp::Ordering::Equal)
        } else {
            Some(core::cmp::Ordering::Less)
        }
    }
}

/// Clone a payload list with its exact contents.
pub(crate) fn clone_payloads(v: &Vec<Vec<u8>>) -> (r: Vec<Vec<u8>>)
    ensures
        r.deep_view() == v.deep_view(),
{
    let mut r: Vec<Vec<u8>> = Vec::new();
    let mut i: usize = 0;
    while i < v.len()
        invariant
            0 <= i <= v.len(),
            r.deep_view() =~~= v.deep_view().take(i as int),
        decreases v.len() - i,
    {
        let p = v[i].clone();
        proof {
            assert(p@ =~= v@[i as int]@);
        }
        r.push(p);
        proof {
            assert(r.deep_view() =~~= v.deep_view().take(i + 1));
        }
        i = i + 1;
    }
    proof {
        assert(v.deep_view().take(v.len() as int) =~~= v.deep_view());
    }
    r
}

impl Clone for Message {
    /// A clone carries the same id, object id and payloads.
    fn clone(&self) -> (r: Self)
        ensures
            r@ == self@,
    {
        Message {
            object_id: self.object_id.clone(),
            msg_id: self.msg_id,
            payloads: clone_payloads(&self.payloads),
        }
    }
}

} // verus!
