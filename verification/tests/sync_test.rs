use docsync::coordinator::{RemoteCollab, RemoteCollabStorage, StorageError};
use docsync::counter::RngMsgIdCounter;
use docsync::message::Message;
use docsync::sink::{ReliableSink, SinkConfig};
use std::cell::RefCell;
use yrs::updates::decoder::Decode;
use yrs::{Array, ReadTxn, Transact};

struct MemoryStorage {
    updates: RefCell<Vec<Vec<u8>>>,
    fail_fetch: bool,
}

impl MemoryStorage {
    fn new() -> Self {
        MemoryStorage {
            updates: RefCell::new(Vec::new()),
            fail_fetch: false,
        }
    }
}

impl RemoteCollabStorage for MemoryStorage {
    fn get_all_updates(&self, _object_id: &str) -> Result<Vec<Vec<u8>>, StorageError> {
        if self.fail_fetch {
            Err(StorageError {
                message: "unreachable storage".to_string(),
            })
        } else {
            Ok(self.updates.borrow().clone())
        }
    }

    fn send_update(&self, _id: u64, update: Vec<u8>) -> Result<(), StorageError> {
        self.updates.borrow_mut().push(update);
        Ok(())
    }
}

fn append_row(doc: &yrs::Doc, row_id: &str) {
    let array = doc.get_or_insert_array("row_orders");
    let mut txn = doc.transact_mut();
    array.push_back(&mut txn, yrs::MapPrelim::from([("id", row_id)]));
}

fn row_ids(doc: &yrs::Doc) -> Vec<String> {
    let array = doc.get_or_insert_array("row_orders");
    let txn = doc.transact();
    let mut out = Vec::new();
    for i in 0..array.len(&txn) {
        let entry = array.get(&txn, i).unwrap();
        let map = match entry {
            yrs::Out::YMap(m) => m,
            other => panic!("expected a map, got {:?}", other),
        };
        let id = yrs::Map::get(&map, &txn, "id").unwrap();
        match id {
            yrs::Out::Any(yrs::Any::String(s)) => out.push(s.to_string()),
            other => panic!("expected a string id, got {:?}", other),
        }
    }
    out
}

#[test]
fn msg_ids_strictly_increase() {
    let mut counter = RngMsgIdCounter::new();
    let a = counter.next();
    let b = counter.next();
    let c = counter.next();
    assert!(a < b);
    assert!(b < c);
    assert_eq!(b, a + 1);
}

#[test]
fn two_enqueues_one_message_one_id() {
    let mut sink = ReliableSink::new("o1".to_string(), SinkConfig::default());
    sink.enqueue_or_merge(b"edit-one".to_vec());
    sink.enqueue_or_merge(b"edit-two".to_vec());

    let first = sink.dispatch_next().unwrap();
    assert_eq!(first.payloads.len(), 2);
    assert_eq!(first.payloads[0], b"edit-one".to_vec());
    assert_eq!(first.payloads[1], b"edit-two".to_vec());

    // exactly one message was pending: after its ack, nothing is left
    sink.ack(first.msg_id);
    assert!(sink.dispatch_next().is_none());
}

#[test]
fn dispatched_message_is_immutable_under_merge() {
    let mut sink = ReliableSink::new("o1".to_string(), SinkConfig::default());
    sink.enqueue_or_merge(b"first".to_vec());
    let inflight = sink.dispatch_next().unwrap();
    assert_eq!(inflight.payloads.len(), 1);

    // a new edit while one is in flight opens a second message
    sink.enqueue_or_merge(b"second".to_vec());
    let resent = sink.on_retry_timeout().unwrap();
    assert_eq!(resent.payloads.len(), 1);
    assert_eq!(resent.msg_id, inflight.msg_id);

    sink.ack(inflight.msg_id);
    let next = sink.dispatch_next().unwrap();
    assert!(next.msg_id > inflight.msg_id);
    assert_eq!(next.payloads[0], b"second".to_vec());
}

#[test]
fn retries_are_bounded() {
    let config = SinkConfig {
        timeout_ms: 10,
        max_retry: 2,
    };
    let mut sink = ReliableSink::new("o1".to_string(), config);
    sink.enqueue_or_merge(b"payload".to_vec());
    let msg = sink.dispatch_next().unwrap();
    assert!(sink.on_retry_timeout().is_some());
    assert!(sink.on_retry_timeout().is_some());
    // attempts exhausted: the message stays unacked but is not resent
    assert!(sink.on_retry_timeout().is_none());
    sink.ack(msg.msg_id);
    assert!(sink.on_retry_timeout().is_none());
}

#[test]
fn full_message_opens_a_new_one() {
    let mut sink = ReliableSink::new("o1".to_string(), SinkConfig::default());
    sink.enqueue_or_merge(vec![7u8; 1024]);
    sink.enqueue_or_merge(b"overflow".to_vec());
    let first = sink.dispatch_next().unwrap();
    assert_eq!(first.payloads.len(), 1);
    assert_eq!(first.payloads[0].len(), 1024);
    sink.ack(first.msg_id);
    let second = sink.dispatch_next().unwrap();
    assert_eq!(second.payloads.len(), 1);
    assert_eq!(second.payloads[0], b"overflow".to_vec());
}

#[test]
fn ack_matches_by_id_only() {
    let mut sink = ReliableSink::new("o1".to_string(), SinkConfig::default());
    sink.enqueue_or_merge(b"payload".to_vec());
    let msg = sink.dispatch_next().unwrap();
    // a wrong id acknowledges nothing
    sink.ack(msg.msg_id + 1);
    assert!(sink.on_retry_timeout().is_some());
    sink.ack(msg.msg_id);
    assert!(sink.dispatch_next().is_none());
}

#[test]
fn into_payload_merges_fragments() {
    // two real encoded updates from two documents merge into one blob that
    // carries both edits
    let d1 = yrs::Doc::new();
    append_row(&d1, "a");
    let u1 = d1.transact().encode_state_as_update_v1(&yrs::StateVector::default());
    let d2 = yrs::Doc::new();
    append_row(&d2, "b");
    let u2 = d2.transact().encode_state_as_update_v1(&yrs::StateVector::default());

    let msg = Message {
        object_id: "o1".to_string(),
        msg_id: 9,
        payloads: vec![u1, u2],
    };
    let (id, merged) = msg.into_payload().unwrap();
    assert_eq!(id, 9);

    let target = yrs::Doc::new();
    {
        let mut txn = target.transact_mut();
        txn.apply_update(yrs::Update::decode_v1(&merged).unwrap())
            .unwrap();
    }
    let ids = row_ids(&target);
    assert_eq!(ids.len(), 2);
    assert!(ids.contains(&"a".to_string()));
    assert!(ids.contains(&"b".to_string()));
}

#[test]
fn into_payload_rejects_garbage() {
    let msg = Message {
        object_id: "o1".to_string(),
        msg_id: 1,
        payloads: vec![vec![0xFF, 0xFE, 0xFD]],
    };
    assert!(msg.into_payload().is_err());
}

#[test]
fn message_description_names_id_and_length() {
    let msg = Message {
        object_id: "o1".to_string(),
        msg_id: 3,
        payloads: vec![vec![1, 2, 3, 4]],
    };
    assert_eq!(
        msg.describe(),
        "send o1 update: [msg_id:3|payload_len:4]".to_string()
    );
}

#[test]
fn sync_end_to_end_delivers_appended_row() {
    // R1 appends a row and syncs against an empty remote history; R2 fetches
    // and applies; R2's materialized row order list holds exactly that row.
    let storage = MemoryStorage::new();

    let mut local1 = yrs::Doc::new();
    append_row(&local1, "r1");
    let mut r1 = RemoteCollab::new("o1".to_string(), SinkConfig::default());
    assert!(r1.sync(&storage, &mut local1));

    // the dispatch loop sends the pending message and acks it
    let msg = r1.dispatch_next().unwrap();
    let (id, payload) = msg.into_payload().unwrap();
    storage.send_update(id, payload).unwrap();
    r1.ack(id);
    assert!(r1.dispatch_next().is_none());

    let mut local2 = yrs::Doc::new();
    let mut r2 = RemoteCollab::new("o1".to_string(), SinkConfig::default());
    assert!(r2.sync(&storage, &mut local2));

    assert_eq!(row_ids(&local2), vec!["r1".to_string()]);
}

#[test]
fn sync_converges_under_any_edit_order() {
    // the same two edits land in either order at two replicas; after syncing
    // against the same storage both materialize the same row set
    let d_a = yrs::Doc::new();
    append_row(&d_a, "x");
    let u1 = d_a.transact().encode_state_as_update_v1(&yrs::StateVector::default());
    let d_b = yrs::Doc::new();
    append_row(&d_b, "y");
    let u2 = d_b.transact().encode_state_as_update_v1(&yrs::StateVector::default());

    let mut local1 = yrs::Doc::new();
    let mut r1 = RemoteCollab::new("o1".to_string(), SinkConfig::default());
    assert!(r1.sync_with_updates(&mut local1, &vec![u1.clone(), u2.clone()]));

    let mut local2 = yrs::Doc::new();
    let mut r2 = RemoteCollab::new("o1".to_string(), SinkConfig::default());
    assert!(r2.sync_with_updates(&mut local2, &vec![u2, u1]));

    let ids1: std::collections::HashSet<String> = row_ids(&local1).into_iter().collect();
    let ids2: std::collections::HashSet<String> = row_ids(&local2).into_iter().collect();
    assert_eq!(ids1, ids2);
    assert_eq!(ids1.len(), 2);
}

#[test]
fn sync_skips_undecodable_history_entries() {
    let d = yrs::Doc::new();
    append_row(&d, "good");
    let good = d.transact().encode_state_as_update_v1(&yrs::StateVector::default());

    let mut local = yrs::Doc::new();
    let mut rc = RemoteCollab::new("o1".to_string(), SinkConfig::default());
    let ok = rc.sync_with_updates(&mut local, &vec![vec![0xFF, 0x00], good]);
    assert!(!ok);
    // the decodable entry still went through
    assert_eq!(row_ids(&local), vec!["good".to_string()]);
}

#[test]
fn sync_treats_fetch_failure_as_empty_history() {
    let storage = MemoryStorage {
        updates: RefCell::new(Vec::new()),
        fail_fetch: true,
    };
    let mut local = yrs::Doc::new();
    append_row(&local, "kept");
    let mut rc = RemoteCollab::new("o1".to_string(), SinkConfig::default());
    assert!(rc.sync(&storage, &mut local));
    // the local replica lost nothing, and its lead was pushed to the sink
    assert_eq!(row_ids(&local), vec!["kept".to_string()]);
    assert!(rc.dispatch_next().is_some());
}

#[test]
fn push_update_routes_through_the_sink() {
    let d = yrs::Doc::new();
    append_row(&d, "z");
    let update = d.transact().encode_state_as_update_v1(&yrs::StateVector::default());

    let mut rc = RemoteCollab::new("o1".to_string(), SinkConfig::default());
    rc.push_update(&update);
    rc.push_update(&update);
    // both edits coalesced into one pending message
    let msg = rc.dispatch_next().unwrap();
    assert_eq!(msg.payloads.len(), 2);
    rc.ack(msg.msg_id);
    assert!(rc.dispatch_next().is_none());
}

#[test]
fn seed_composition_is_clock_high_salt_low() {
    // clock bits shifted up, salt masked to 12 bits, bits 12..16 clear
    assert_eq!(docsync::counter::seed_from(1, 0xFFFF), 0x10FFF);
    assert_eq!(docsync::counter::seed_from(0, 0x0ABC), 0xABC);
    let seed = docsync::counter::seed_from(0xDEAD_BEEF, 0x1234);
    assert_eq!(seed, (0xDEAD_BEEFu64 << 16) | 0x234);
    assert_eq!(seed & 0xF000, 0);
}

#[test]
fn generated_row_ids_are_non_negative() {
    for _ in 0..8 {
        assert!(docsync::views::gen_row_id().value >= 0);
    }
}
