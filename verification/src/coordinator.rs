//! The remote sync coordinator: it reconciles a local replica against the
//! history stored for the object remotely, through an internal mirror replica,
//! and pushes the local lead through the reliable sink. Later edits flow only
//! through `push_update`, never past the sink's ordering and merging.

use crate::codec;
use crate::sink::{ReliableSink, SinkConfig, SinkModel};
use vstd::prelude::*;

verus! {

/// An error of the remote storage collaborator.
#[derive(Debug)]
pub struct StorageError {
    pub message: String,
}

/// The storage holding the remote history of an object. Any storage
/// implementing this trait can back a coordinator; nothing is assumed of it.
pub trait RemoteCollabStorage {
    /// Get all the stored update blobs of the object.
    fn get_all_updates(&self, object_id: &str) -> Result<Vec<Vec<u8>>, StorageError>;

    /// Send one merged update to the remote storage; success is acknowledged
    /// to the sink under the message id.
    fn send_update(&self, id: u64, update: Vec<u8>) -> Result<(), StorageError>;
}

/// The remote replica of one object: a mirror document tracking what the
/// remote side holds, and the sink that carries the local lead outward.
pub struct RemoteCollab {
    object_id: String,
    collab: yrs::Doc,
    sink: ReliableSink,
}

impl RemoteCollab {
    /// The object this coordinator serves.
    pub closed spec fn object_id_view(self) -> Seq<char> {
        self.object_id@
    }

    /// The operations the mirror replica has observed.
    pub closed spec fn mirror_ops(self) -> Set<int> {
        codec::doc_ops(self.collab)
    }

    /// The state of the outbound sink.
    pub closed spec fn sink_model(self) -> SinkModel {
        self.sink@
    }

    /// Well-formed: the sink is, and it addresses this object.
    pub open spec fn wf(self) -> bool {
        &&& self.sink_model().wf()
        &&& self.sink_model().object_id == self.object_id_view()
    }

    /// A fresh coordinator: an empty mirror and an idle sink.
    pub fn new(object_id: String, config: SinkConfig) -> (r: Self)
        ensures
            r.wf(),
            r.object_id_view() == object_id@,
            r.mirror_ops() == Set::<int>::empty(),
            r.sink_model().pending.len() == 0,
            !r.sink_model().dispatched,
            r.sink_model().last_id <= crate::counter::SEED_MAX,
            r.sink_model().timeout_ms == config.timeout_ms,
            r.sink_model().max_retry == config.max_retry,
    {
        let sink = ReliableSink::new(object_id.clone(), config);
        RemoteCollab { object_id, collab: codec::new_doc(), sink }
    }

    /// Whether another edit can be routed outward: either a pending message
    /// can still absorb it, or the id space has room for a new one.
    pub fn can_enqueue(&self) -> (r: bool)
        ensures
            r == (self.sink_model().has_mergeable() || self.sink_model().last_id < u64::MAX),
    {
        self.sink.can_enqueue()
    }

    /// Route a local edit outward through the sink: it merges into the
    /// still-pending message, or opens a new one under a fresh id. The mirror
    /// is not touched.
    pub fn push_update(&mut self, update: &[u8])
        requires
            old(self).wf(),
            old(self).sink_model().has_mergeable() || old(self).sink_model().last_id < u64::MAX,
        ensures
            final(self).wf(),
            final(self).sink_model() == old(self).sink_model().spec_enqueue(update@),
            final(self).mirror_ops() == old(self).mirror_ops(),
            final(self).object_id_view() == old(self).object_id_view(),
    {
        let payload = vstd::slice::slice_to_vec(update);
        self.sink.enqueue_or_merge(payload);
    }

    /// Acknowledge a sent message on the sink.
    pub fn ack(&mut self, msg_id: u64)
        requires
            old(self).wf(),
        ensures
            final(self).wf(),
            final(self).sink_model() == old(self).sink_model().spec_ack(msg_id),
            final(self).mirror_ops() == old(self).mirror_ops(),
            final(self).object_id_view() == old(self).object_id_view(),
    {
        self.sink.ack(msg_id);
    }

    /// Put the sink's head message in flight, handing out a copy to send.
    pub fn dispatch_next(&mut self) -> (r: Option<crate::message::Message>)
        requires
            old(self).wf(),
        ensures
            final(self).wf(),
            final(self).sink_model() == old(self).sink_model().spec_dispatch(),
            final(self).mirror_ops() == old(self).mirror_ops(),
            final(self).object_id_view() == old(self).object_id_view(),
            r is Some <==> (!old(self).sink_model().dispatched && old(
                self,
            ).sink_model().pending.len() > 0),
            r matches Some(m) ==> m@ == old(self).sink_model().pending[0],
    {
        self.sink.dispatch_next()
    }

    /// Spend one more resend of the in-flight message after an ack-wait
    /// timeout, handing out the same message again, never re-merged.
    pub fn on_retry_timeout(&mut self) -> (r: Option<crate::message::Message>)
        requires
            old(self).wf(),
        ensures
            final(self).wf(),
            final(self).sink_model() == old(self).sink_model().spec_retry(),
            final(self).mirror_ops() == old(self).mirror_ops(),
            final(self).object_id_view() == old(self).object_id_view(),
            r is Some <==> (old(self).sink_model().dispatched && old(self).sink_model().attempts
                < old(self).sink_model().max_retry),
            r matches Some(m) ==> m@ == old(self).sink_model().pending[0],
    {
        self.sink.on_retry_timeout()
    }

    /// Reconcile against a fetched history. The history is applied to the
    /// mirror (a blob that fails to parse or integrate is skipped, the rest
    /// still count: every blob that parses and integrates reaches the
    /// mirror); then, when there was any history, the mirror's lead over the
    /// local replica is applied to it — an empty history leaves the local
    /// replica untouched; finally the local lead over the mirror is applied
    /// to the mirror and pushed through the sink. Returns whether every step
    /// went through, and it must when the whole run integrates cleanly; even
    /// when one step did not, no replica loses operations and neither takes
    /// any from outside the two replicas and the history.
    pub fn sync_with_updates(&mut self, local: &mut yrs::Doc, updates: &Vec<Vec<u8>>) -> (ok: bool)
        requires
            old(self).wf(),
            old(self).sink_model().has_mergeable() || old(self).sink_model().last_id < u64::MAX,
        ensures
            final(self).wf(),
            final(self).object_id_view() == old(self).object_id_view(),
            codec::doc_ops(*old(local)).subset_of(codec::doc_ops(*final(local))),
            old(self).mirror_ops().subset_of(final(self).mirror_ops()),
            codec::doc_ops(*final(local)).subset_of(
                codec::doc_ops(*old(local)).union(old(self).mirror_ops()).union(
                    codec::ops_union(updates.deep_view()),
                ),
            ),
            final(self).mirror_ops().subset_of(
                codec::doc_ops(*old(local)).union(old(self).mirror_ops()).union(
                    codec::ops_union(updates.deep_view()),
                ),
            ),
            updates.deep_view().len() == 0 ==> codec::doc_ops(*final(local)) == codec::doc_ops(
                *old(local),
            ),
            history_integrates(old(self).mirror_ops(), updates.deep_view()) ==> decoded_ops(
                updates.deep_view(),
            ).subset_of(final(self).mirror_ops()),
            spec_sync_succeeds(
                codec::doc_ops(*old(local)),
                old(self).mirror_ops(),
                updates.deep_view(),
            ) ==> ok,
            ok ==> final(self).mirror_ops() == old(self).mirror_ops().union(
                codec::doc_ops(*final(local)),
            ),
            ok && updates.len() > 0 ==> codec::doc_ops(*final(local)) == codec::doc_ops(
                *old(local),
            ).union(old(self).mirror_ops()).union(codec::ops_union(updates.deep_view())),
            exists|b: Seq<u8>|
                {
                    &&& final(self).sink_model() == old(self).sink_model().spec_enqueue(b)
                    &&& codec::decodes(b)
                    &&& #[trigger] codec::update_ops(b).subset_of(codec::doc_ops(*final(local)))
                    &&& codec::doc_ops(*final(local)).difference(
                        old(self).mirror_ops().union(codec::ops_union(updates.deep_view())),
                    ).subset_of(codec::update_ops(b))
                },
    {
        let ghost l0 = codec::doc_ops(*local);
        let ghost m0 = self.mirror_ops();
        let ghost dv = updates.deep_view();
        let ghost all = codec::ops_union(dv);
        let ghost succeeds = spec_sync_succeeds(l0, m0, dv);
        let mut all_ok = true;

        if updates.len() > 0 {
            let mut i: usize = 0;
            while i < updates.len()
                invariant
                    0 <= i <= updates.len(),
                    dv == updates.deep_view(),
                    dv.len() == updates.len(),
                    self.wf(),
                    self.object_id == old(self).object_id,
                    self.sink == old(self).sink,
                    *local == *old(local),
                    m0 == old(self).mirror_ops(),
                    m0.subset_of(self.mirror_ops()),
                    self.mirror_ops().subset_of(m0.union(codec::ops_union(dv.take(i as int)))),
                    all_ok ==> self.mirror_ops() == m0.union(codec::ops_union(dv.take(i as int))),
                    history_integrates(m0, dv.take(i as int)) ==> self.mirror_ops() == m0.union(
                        decoded_ops(dv.take(i as int)),
                    ),
                    codec::all_decode(dv.take(i as int)) && history_integrates(
                        m0,
                        dv.take(i as int),
                    ) ==> all_ok,
                decreases updates.len() - i,
            {
                let ghost taken = dv.take(i as int);
                proof {
                    assert(dv[i as int] =~= updates@[i as int]@);
                }
                match codec::decode_update(updates[i].as_slice()) {
                    Some(u) => {
                        let applied = codec::apply_update(&mut self.collab, u);
                        all_ok = all_ok && applied;
                    },
                    None => {
                        all_ok = false;
                    },
                }
                proof {
                    assert(dv.take(i + 1).drop_last() =~= taken);
                    assert(dv.take(i + 1).last() == dv[i as int]);
                    lemma_union_monotone(m0, codec::ops_union(taken), codec::update_ops(dv[i as int]));
                    lemma_union_monotone(m0, decoded_ops(taken), codec::update_ops(dv[i as int]));
                    if all_ok {
                        assert(self.mirror_ops() =~= m0.union(codec::ops_union(dv.take(i + 1))));
                    }
                    assert(self.mirror_ops().subset_of(m0.union(codec::ops_union(dv.take(i + 1)))));
                    if history_integrates(m0, dv.take(i + 1)) {
                        assert(history_integrates(m0, taken));
                        if codec::decodes(dv[i as int]) {
                            assert(decoded_ops(dv.take(i + 1)) == decoded_ops(taken).union(
                                codec::update_ops(dv[i as int]),
                            ));
                            assert(self.mirror_ops() =~= m0.union(decoded_ops(dv.take(i + 1))));
                        } else {
                            assert(decoded_ops(dv.take(i + 1)) == decoded_ops(taken));
                            assert(self.mirror_ops() == m0.union(decoded_ops(dv.take(i + 1))));
                        }
                    }
                    if codec::all_decode(dv.take(i + 1)) && history_integrates(m0, dv.take(i + 1)) {
                        assert(codec::all_decode(taken)) by {
                            assert(forall|j: int|
                                0 <= j < taken.len() ==> taken[j] == dv.take(i + 1)[j]);
                        }
                        assert(codec::decodes(dv[i as int])) by {
                            assert(dv.take(i + 1)[i as int] == dv[i as int]);
                        }
                        assert(all_ok);
                    }
                }
                i = i + 1;
            }
            proof {
                assert(dv.take(updates.len() as int) =~= dv);
            }

            // Close the remote-to-local gap: the mirror's lead over the local
            // replica, computed against the local state vector.
            let local_sv = codec::state_vector(local);
            let blob = codec::encode_state_as_update(&self.collab, &local_sv);
            let u = codec::decode_update(blob.as_slice()).unwrap();
            proof {
                if succeeds {
                    lemma_decoded_ops_all(dv);
                    assert(self.mirror_ops() =~= m0.union(all));
                    assert(codec::ops_of(u) == codec::diff_ops(m0.union(all), codec::sv_of(l0)));
                }
            }
            let applied = codec::apply_update(local, u);
            all_ok = all_ok && applied;
            proof {
                if all_ok {
                    assert(codec::doc_ops(*local) =~= l0.union(m0).union(all)) by {
                        assert(codec::sv_ops(local_sv).subset_of(l0));
                        assert(self.mirror_ops() == m0.union(all));
                    }
                }
                assert(codec::doc_ops(*local).subset_of(l0.union(m0).union(all)));
                if succeeds {
                    assert(applied);
                    assert(all_ok);
                    assert(codec::doc_ops(*local) == l0.union(
                        codec::diff_ops(m0.union(all), codec::sv_of(l0)),
                    ));
                }
            }
        }

        // Close the local-to-remote gap: the local lead over the mirror is
        // applied to the mirror and routed outward through the sink.
        let remote_sv = codec::state_vector(&self.collab);
        let blob = codec::encode_state_as_update(local, &remote_sv);
        let u = codec::decode_update(blob.as_slice()).unwrap();
        let ghost mirror_before_close = self.mirror_ops();
        let applied = codec::apply_update(&mut self.collab, u);
        all_ok = all_ok && applied;
        let ghost pushed = blob@;
        self.push_update(blob.as_slice());
        proof {
            assert(codec::update_ops(pushed).subset_of(codec::doc_ops(*local)));
            assert(codec::doc_ops(*local).difference(m0.union(all)).subset_of(
                codec::update_ops(pushed),
            ));
            if all_ok {
                assert(self.mirror_ops() =~= m0.union(codec::doc_ops(*local)));
            }
            if history_integrates(m0, dv) {
                assert(decoded_ops(dv).subset_of(mirror_before_close));
                assert(decoded_ops(dv).subset_of(self.mirror_ops()));
            }
            if succeeds {
                assert(applied);
                assert(all_ok);
            }
        }
        all_ok
    }

    /// Fetch the whole stored history of the object and reconcile against it;
    /// a fetch failure reads as an empty history, as the remote holding
    /// nothing yet — the local replica is then left untouched. Whatever the
    /// storage returned, no replica loses operations, neither takes any from
    /// outside the replicas and the fetched history, and a blob carrying at
    /// least the local lead over the mirror and the history is pushed through
    /// the sink.
    pub fn sync<S: RemoteCollabStorage>(&mut self, storage: &S, local: &mut yrs::Doc) -> (ok:
        bool)
        requires
            old(self).wf(),
            old(self).sink_model().has_mergeable() || old(self).sink_model().last_id < u64::MAX,
        ensures
            final(self).wf(),
            final(self).object_id_view() == old(self).object_id_view(),
            codec::doc_ops(*old(local)).subset_of(codec::doc_ops(*final(local))),
            old(self).mirror_ops().subset_of(final(self).mirror_ops()),
            ok ==> final(self).mirror_ops() == old(self).mirror_ops().union(
                codec::doc_ops(*final(local)),
            ),
            exists|fetched: Seq<Seq<u8>>, b: Seq<u8>|
                #![trigger codec::ops_union(fetched), codec::update_ops(b)]
                {
                    &&& final(self).sink_model() == old(self).sink_model().spec_enqueue(b)
                    &&& codec::decodes(b)
                    &&& codec::update_ops(b).subset_of(codec::doc_ops(*final(local)))
                    &&& codec::doc_ops(*final(local)).difference(
                        old(self).mirror_ops().union(codec::ops_union(fetched)),
                    ).subset_of(codec::update_ops(b))
                    &&& codec::doc_ops(*final(local)).subset_of(
                        codec::doc_ops(*old(local)).union(old(self).mirror_ops()).union(
                            codec::ops_union(fetched),
                        ),
                    )
                    &&& final(self).mirror_ops().subset_of(
                        codec::doc_ops(*old(local)).union(old(self).mirror_ops()).union(
                            codec::ops_union(fetched),
                        ),
                    )
                    &&& (fetched.len() == 0 ==> codec::doc_ops(*final(local)) == codec::doc_ops(
                        *old(local),
                    ))
                },
    {
        let updates = match storage.get_all_updates(self.object_id.as_str()) {
            Ok(updates) => updates,
            Err(_) => Vec::new(),
        };
        let ghost fetched = updates.deep_view();
        let ghost pre = *old(self);
        let ghost l0 = codec::doc_ops(*local);
        let ok = self.sync_with_updates(local, &updates);
        proof {
            let b = choose|b: Seq<u8>|
                {
                    &&& self.sink_model() == pre.sink_model().spec_enqueue(b)
                    &&& codec::decodes(b)
                    &&& #[trigger] codec::update_ops(b).subset_of(codec::doc_ops(*local))
                    &&& codec::doc_ops(*local).difference(
                        pre.mirror_ops().union(codec::ops_union(fetched)),
                    ).subset_of(codec::update_ops(b))
                };
            assert({
                &&& self.sink_model() == pre.sink_model().spec_enqueue(b)
                &&& codec::decodes(b)
                &&& codec::update_ops(b).subset_of(codec::doc_ops(*local))
                &&& codec::doc_ops(*local).difference(
                    pre.mirror_ops().union(codec::ops_union(fetched)),
                ).subset_of(codec::update_ops(b))
                &&& codec::doc_ops(*local).subset_of(
                    l0.union(pre.mirror_ops()).union(codec::ops_union(fetched)),
                )
                &&& self.mirror_ops().subset_of(
                    l0.union(pre.mirror_ops()).union(codec::ops_union(fetched)),
                )
                &&& (fetched.len() == 0 ==> codec::doc_ops(*local) == l0)
            });
        }
        ok
    }
}

/// The operations of the blobs of a history that parse.
pub open spec fn decoded_ops(blobs: Seq<Seq<u8>>) -> Set<int>
    decreases blobs.len(),
{
    if blobs.len() == 0 {
        Set::empty()
    } else {
        let rest = decoded_ops(blobs.drop_last());
        if codec::decodes(blobs.last()) {
            rest.union(codec::update_ops(blobs.last()))
        } else {
            rest
        }
    }
}

/// Whether a history integrates cleanly: every blob that parses integrates
/// into the state built from the previously parsed ones.
pub open spec fn history_integrates(mirror: Set<int>, blobs: Seq<Seq<u8>>) -> bool
    decreases blobs.len(),
{
    if blobs.len() == 0 {
        true
    } else {
        &&& history_integrates(mirror, blobs.drop_last())
        &&& (codec::decodes(blobs.last()) ==> codec::integrates(
            mirror.union(decoded_ops(blobs.drop_last())),
            codec::update_ops(blobs.last()),
        ))
    }
}

/// Whether one reconciliation run succeeds outright: the whole history parses
/// and integrates into the mirror, the mirror's lead then integrates into the
/// local replica, and the local lead integrates back into the mirror.
pub open spec fn spec_sync_succeeds(local: Set<int>, mirror: Set<int>, blobs: Seq<Seq<u8>>) -> bool {
    let advanced_mirror = if blobs.len() > 0 {
        mirror.union(codec::ops_union(blobs))
    } else {
        mirror
    };
    let advanced_local = if blobs.len() > 0 {
        local.union(codec::diff_ops(advanced_mirror, codec::sv_of(local)))
    } else {
        local
    };
    &&& codec::all_decode(blobs)
    &&& history_integrates(mirror, blobs)
    &&& (blobs.len() > 0 ==> codec::integrates(
        local,
        codec::diff_ops(advanced_mirror, codec::sv_of(local)),
    ))
    &&& codec::integrates(
        advanced_mirror,
        codec::diff_ops(advanced_local, codec::sv_of(advanced_mirror)),
    )
}

/// In a history whose blobs all parse, the parsed operations are all of them.
proof fn lemma_decoded_ops_all(blobs: Seq<Seq<u8>>)
    requires
        codec::all_decode(blobs),
    ensures
        decoded_ops(blobs) == codec::ops_union(blobs),
    decreases blobs.len(),
{
    if blobs.len() > 0 {
        assert(codec::all_decode(blobs.drop_last())) by {
            assert(forall|j: int|
                0 <= j < blobs.drop_last().len() ==> blobs.drop_last()[j] == blobs[j]);
        }
        lemma_decoded_ops_all(blobs.drop_last());
    }
}

/// The state a replica reaches by applying a batch of edits, each growing the
/// observed set by the edit's operations.
pub open spec fn merged_state(initial: Set<int>, edits: Seq<Seq<u8>>) -> Set<int> {
    initial.union(codec::ops_union(edits))
}

/// The remote (mirror) state after a successful reconciliation of a local
/// replica against a stored history.
pub open spec fn post_sync_remote(local: Set<int>, mirror: Set<int>, history: Seq<Seq<u8>>) -> Set<
    int,
> {
    mirror.union(codec::ops_union(history)).union(local)
}

/// For any interleaving of local edits applied while disconnected, the
/// post-sync remote state is the merge of all of them with the stored history:
/// it depends on the set of edits alone, not on the order they were applied.
pub proof fn lemma_sync_order_independent(
    initial: Set<int>,
    mirror: Set<int>,
    history: Seq<Seq<u8>>,
    edits_a: Seq<Seq<u8>>,
    edits_b: Seq<Seq<u8>>,
)
    requires
        edits_a.to_multiset() == edits_b.to_multiset(),
    ensures
        post_sync_remote(merged_state(initial, edits_a), mirror, history) == post_sync_remote(
            merged_state(initial, edits_b),
            mirror,
            history,
        ),
{
    codec::lemma_ops_union_permutation(edits_a, edits_b);
}

/// End-to-end delivery on first contact: syncing a local replica against an
/// empty mirror and an empty stored history pushes a blob carrying exactly
/// the local replica's operations, so a fresh peer that applies it observes
/// exactly that state. The two bounds required here are what
/// `sync_with_updates` ensures of the pushed blob; the conclusion about the
/// peer is what applying the blob grows an empty replica to.
pub proof fn lemma_first_sync_delivers_local_state(
    local: Set<int>,
    mirror: Set<int>,
    history: Seq<Seq<u8>>,
    pushed: Seq<u8>,
    peer: Set<int>,
)
    requires
        mirror == Set::<int>::empty(),
        history.len() == 0,
        peer == Set::<int>::empty(),
        codec::update_ops(pushed).subset_of(local),
        local.difference(mirror.union(codec::ops_union(history))).subset_of(
            codec::update_ops(pushed),
        ),
    ensures
        codec::update_ops(pushed) == local,
        peer.union(codec::update_ops(pushed)) == local,
{
    assert(codec::update_ops(pushed) =~= local);
    assert(peer.union(codec::update_ops(pushed)) =~= local);
}

/// Growing one operand of a union by new operations grows the union by them.
proof fn lemma_union_monotone(base: Set<int>, grown: Set<int>, more: Set<int>)
    ensures
        base.union(grown).union(more) =~= base.union(grown.union(more)),
{
}

} // verus!
