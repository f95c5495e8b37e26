//! The update codec: the external CRDT primitive that encodes, merges and
//! applies opaque update blobs and computes state vectors.
//!
//! A document is modelled by the set of operations it has observed (pending
//! ones included), an update blob by the set of operations it encodes. The
//! merge of two histories is the union of their operation sets: operations are
//! identified, so applying a blob twice, or applying two blobs in either
//! order, yields the same observed set.

use vstd::prelude::*;
use yrs::updates::decoder::Decode;
use yrs::ReadTxn;
use yrs::Transact;

verus! {

#[verifier::external_type_specification]
#[verifier::external_body]
pub struct ExDoc(yrs::Doc);

#[verifier::external_type_specification]
#[verifier::external_body]
pub struct ExUpdate(yrs::Update);

#[verifier::external_type_specification]
#[verifier::external_body]
pub struct ExStateVector(yrs::StateVector);

/// The set of operations a document has observed, pending ones included.
pub uninterp spec fn doc_ops(d: yrs::Doc) -> Set<int>;

/// The set of operations an encoded update blob carries.
pub uninterp spec fn update_ops(blob: Seq<u8>) -> Set<int>;

/// Whether an encoded update blob parses under the codec's binary format.
pub uninterp spec fn decodes(blob: Seq<u8>) -> bool;

/// The set of operations a decoded update carries.
pub uninterp spec fn ops_of(u: yrs::Update) -> Set<int>;

/// The set of operations a state vector covers.
pub uninterp spec fn sv_ops(sv: yrs::StateVector) -> Set<int>;

/// Whether an update carrying the given operations integrates cleanly into a
/// document that has observed the given set. Under the codec's model a
/// document's store is determined by the operations it has observed, so
/// integration success is a function of the two sets alone.
pub uninterp spec fn integrates(observed: Set<int>, incoming: Set<int>) -> bool;

/// The operations of the update a document encodes against a state vector:
/// a function of what the document has observed and what the vector covers.
pub uninterp spec fn diff_ops(observed: Set<int>, covered: Set<int>) -> Set<int>;

/// The coverage of the state vector a document produces: a function of what
/// the document has observed.
pub uninterp spec fn sv_of(observed: Set<int>) -> Set<int>;

/// The operations carried by a sequence of encoded update blobs, together.
pub open spec fn ops_union(blobs: Seq<Seq<u8>>) -> Set<int>
    decreases blobs.len(),
{
    if blobs.len() == 0 {
        Set::empty()
    } else {
        ops_union(blobs.drop_last()).union(update_ops(blobs.last()))
    }
}

/// Whether every blob of a sequence parses.
pub open spec fn all_decode(blobs: Seq<Seq<u8>>) -> bool {
    forall|i: int| 0 <= i < blobs.len() ==> decodes(#[trigger] blobs[i])
}

/// Relies on yrs::Doc::new: a fresh document has observed no operations.
#[verifier::external_body]
pub(crate) fn new_doc() -> (d: yrs::Doc)
    ensures
        doc_ops(d) == Set::<int>::empty(),
{
    yrs::Doc::new()
}

/// Relies on yrs::Update::decode_v1: it parses an encoded update; whether it
/// parses, and which operations it carries, depend on the bytes alone.
#[verifier::external_body]
pub(crate) fn decode_update(blob: &[u8]) -> (r: Option<yrs::Update>)
    ensures
        r is Some <==> decodes(blob@),
        r matches Some(u) ==> ops_of(u) == update_ops(blob@),
{
    yrs::Update::decode_v1(blob).ok()
}

/// Relies on yrs::TransactionMut::apply_update (through yrs::Transact): it
/// integrates the update into the document; operations already observed are
/// ignored and out-of-order ones are kept pending, so on success the observed
/// set grows by exactly the update's operations. On an integration error only
/// a part of them may have been taken; nothing is ever dropped. Whether it
/// errs is decided by the update's operations against the document's store,
/// which the observed set determines.
#[verifier::external_body]
pub(crate) fn apply_update(d: &mut yrs::Doc, u: yrs::Update) -> (r: bool)
    ensures
        r == integrates(doc_ops(*old(d)), ops_of(u)),
        r ==> doc_ops(*final(d)) == doc_ops(*old(d)).union(ops_of(u)),
        doc_ops(*old(d)).subset_of(doc_ops(*final(d))),
        doc_ops(*final(d)).subset_of(doc_ops(*old(d)).union(ops_of(u))),
{
    let mut txn = d.transact_mut();
    txn.apply_update(u).is_ok()
}

/// Relies on yrs::ReadTxn::state_vector (through yrs::Transact): the state
/// vector summarizes the operations the document has integrated — a function
/// of what it has observed — and it never covers an operation the document
/// has not observed.
#[verifier::external_body]
pub(crate) fn state_vector(d: &yrs::Doc) -> (sv: yrs::StateVector)
    ensures
        sv_ops(sv) == sv_of(doc_ops(*d)),
        sv_ops(sv).subset_of(doc_ops(*d)),
{
    d.transact().state_vector()
}

/// Relies on yrs::ReadTxn::encode_state_as_update_v1 (through yrs::Transact):
/// the result encodes every operation of the document that the given state
/// vector does not cover (pending ones included), carries no operation from
/// outside the document, and parses again. Which operations it carries is a
/// function of the observed set and the vector's coverage.
#[verifier::external_body]
pub(crate) fn encode_state_as_update(d: &yrs::Doc, sv: &yrs::StateVector) -> (r: Vec<u8>)
    ensures
        update_ops(r@) == diff_ops(doc_ops(*d), sv_ops(*sv)),
        doc_ops(*d).difference(sv_ops(*sv)).subset_of(update_ops(r@)),
        update_ops(r@).subset_of(doc_ops(*d)),
        decodes(r@),
{
    d.transact().encode_state_as_update_v1(sv)
}

/// Relies on yrs::merge_updates_v1: it parses every input update and merges
/// them into one encoded update carrying exactly their operations together;
/// it fails exactly when some input fails to parse, and its output parses.
#[verifier::external_body]
pub(crate) fn merge_updates(payloads: &Vec<Vec<u8>>) -> (r: Option<Vec<u8>>)
    ensures
        r is Some <==> all_decode(payloads.deep_view()),
        r matches Some(m) ==> update_ops(m@) == ops_union(payloads.deep_view()) && decodes(m@),
{
    yrs::merge_updates_v1(payloads).ok()
}

/// Each operation of a blob sequence stands in some blob of it, and the other
/// way round.
pub proof fn lemma_ops_union_contains(blobs: Seq<Seq<u8>>, x: int)
    ensures
        ops_union(blobs).contains(x) <==> exists|i: int|
            0 <= i < blobs.len() && update_ops(#[trigger] blobs[i]).contains(x),
    decreases blobs.len(),
{
    if blobs.len() > 0 {
        lemma_ops_union_contains(blobs.drop_last(), x);
        if ops_union(blobs).contains(x) {
            if update_ops(blobs.last()).contains(x) {
                assert(update_ops(blobs[blobs.len() - 1]).contains(x));
            } else {
                let i = choose|i: int|
                    0 <= i < blobs.drop_last().len() && update_ops(
                        #[trigger] blobs.drop_last()[i],
                    ).contains(x);
                assert(update_ops(blobs[i]).contains(x));
            }
        }
        if exists|i: int| 0 <= i < blobs.len() && update_ops(#[trigger] blobs[i]).contains(x) {
            let i = choose|i: int|
                0 <= i < blobs.len() && update_ops(#[trigger] blobs[i]).contains(x);
            if i < blobs.len() - 1 {
                assert(update_ops(blobs.drop_last()[i]).contains(x));
            }
        }
    }
}

/// Two sequences holding the same blobs, in any order and multiplicity, carry
/// the same operations: the merge of a history is independent of edit order.
pub proof fn lemma_ops_union_permutation(a: Seq<Seq<u8>>, b: Seq<Seq<u8>>)
    requires
        a.to_multiset() == b.to_multiset(),
    ensures
        ops_union(a) == ops_union(b),
{
    a.to_multiset_ensures();
    b.to_multiset_ensures();
    assert forall|x: int| ops_union(a).contains(x) implies ops_union(b).contains(x) by {
        lemma_ops_union_contains(a, x);
        lemma_ops_union_contains(b, x);
        let i = choose|i: int| 0 <= i < a.len() && update_ops(#[trigger] a[i]).contains(x);
        assert(a.contains(a[i]));
        assert(a.to_multiset().count(a[i]) > 0);
        assert(b.to_multiset().count(a[i]) > 0);
        assert(b.contains(a[i]));
        let j = choose|j: int| 0 <= j < b.len() && b[j] == a[i];
        assert(update_ops(b[j]).contains(x));
    }
    assert forall|x: int| ops_union(b).contains(x) implies ops_union(a).contains(x) by {
        lemma_ops_union_contains(a, x);
        lemma_ops_union_contains(b, x);
        let i = choose|i: int| 0 <= i < b.len() && update_ops(#[trigger] b[i]).contains(x);
        assert(b.contains(b[i]));
        assert(b.to_multiset().count(b[i]) > 0);
        assert(a.to_multiset().count(b[i]) > 0);
        assert(a.contains(b[i]));
        let j = choose|j: int| 0 <= j < a.len() && a[j] == b[i];
        assert(update_ops(a[j]).contains(x));
    }
    assert(ops_union(a) =~= ops_union(b));
}

} // verus!
