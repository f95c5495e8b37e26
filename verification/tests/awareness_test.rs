use docsync::awareness::Awareness;

#[test]
fn awareness_insert_test() {
    let mut awareness = Awareness::new(1);

    let s = "{\"name\":\"nathan\"}".to_string();
    let event = awareness.set_local_state(s.clone());
    let state = awareness.local_state().unwrap();
    assert_eq!(state, s);

    assert_eq!(event.updated.len(), 1);
    assert_eq!(event.updated[0], 1);
    assert!(event.removed.is_empty());
}

#[test]
fn awareness_updates() {
    let mut c1 = Awareness::new(1);
    let mut c2 = Awareness::new(2);

    let s1 = "{\"name\":\"nathan\"}".to_string();
    c1.set_local_state(s1.clone());
    let s2 = "{\"name\":\"bartosz\"}".to_string();
    c2.set_local_state(s2.clone());

    let u2 = c2.update();
    c1.apply_update(&u2);

    let clients = c1.clients();
    assert_eq!(clients.len(), 2);
    let values: std::collections::HashSet<String> =
        clients.iter().map(|(_, s)| s.clone()).collect();
    assert_eq!(
        values,
        std::collections::HashSet::from([s1, s2])
    );
}

#[test]
fn initial_awareness_test() {
    // A fresh replica has published nothing yet; its first published state is
    // exactly what it set.
    let mut awareness = Awareness::new(1);
    assert!(awareness.local_state().is_none());
    awareness.set_local_state("{\"uid\":1}".to_string());
    let state = awareness.local_state().unwrap();
    assert_eq!(state, "{\"uid\":1}".to_string());
}

#[test]
fn clean_awareness_state_test() {
    let mut awareness = Awareness::new(1);
    awareness.set_local_state("{\"uid\":1}".to_string());
    let event = awareness.clean_local_state();
    assert_eq!(event.removed.len(), 1);
    assert_eq!(event.removed[0], 1);
    assert!(event.updated.is_empty());

    assert!(awareness.local_state().is_none());
}

#[test]
fn clean_awareness_state_sync_test() {
    let mut collab_1 = Awareness::new(10);
    collab_1.set_local_state("{\"uid\":0}".to_string());

    // apply the awareness state from one replica to the other
    let mut collab_2 = Awareness::new(20);
    collab_2.set_local_state("{\"uid\":1}".to_string());
    collab_2.apply_update(&collab_1.update());

    // the first replica's state is synced to the second after the update
    let states = collab_2.clients();
    assert_eq!(states.len(), 2);

    // the first replica cleans its state; the removal wins at the second
    collab_1.clean_local_state();
    let ev = collab_2.apply_update(&collab_1.update());
    assert_eq!(ev.removed, vec![10]);

    let states = collab_2.clients();
    assert_eq!(states.len(), 1);
    assert_eq!(states[0].0, 20);
}

#[test]
fn awareness_exchange_keeps_both_states_verbatim() {
    // Setting a state on each of two replicas and exchanging updates merges
    // to the same two-client map on both sides.
    let mut r1 = Awareness::new(1);
    let mut r2 = Awareness::new(2);
    r1.set_local_state("S1".to_string());
    r2.set_local_state("S2".to_string());

    r1.apply_update(&r2.update());
    r2.apply_update(&r1.update());

    for replica in [&r1, &r2] {
        let clients = replica.clients();
        assert_eq!(clients.len(), 2);
        let values: std::collections::HashSet<(u64, String)> =
            clients.iter().cloned().collect();
        assert_eq!(
            values,
            std::collections::HashSet::from([
                (1u64, "S1".to_string()),
                (2u64, "S2".to_string())
            ])
        );
    }
}

#[test]
fn awareness_stale_clock_loses() {
    // Last-write-wins per client: an entry under an older clock never
    // overwrites a newer one.
    let mut r1 = Awareness::new(1);
    r1.set_local_state("old".to_string());
    let stale = r1.update();

    let mut r2 = Awareness::new(2);
    r2.apply_update(&stale);

    r1.set_local_state("new".to_string());
    r2.apply_update(&r1.update());

    // replaying the stale update changes nothing
    let ev = r2.apply_update(&stale);
    assert!(ev.updated.is_empty());
    assert!(ev.removed.is_empty());
    let clients = r2.clients();
    let entry = clients.iter().find(|(c, _)| *c == 1).unwrap();
    assert_eq!(entry.1, "new".to_string());
}
