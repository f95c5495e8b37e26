//! The awareness engine: a small, independent, non-persisted presence CRDT.
//! Each client owns one entry — an opaque state blob under a per-client
//! logical clock — and conflict resolution is purely last-write-wins per
//! source client; no ordering across clients is guaranteed or required.

use vstd::prelude::*;

verus! {

/// One client's presence entry: its logical clock and its state blob; a
/// cleaned entry keeps its clock and carries no blob.
pub struct AwarenessEntry {
    pub clock: u32,
    pub state: Option<String>,
}

/// The mathematical content of an entry.
pub struct AwarenessEntryView {
    pub clock: u32,
    pub state: Option<Seq<char>>,
}

impl View for AwarenessEntry {
    type V = AwarenessEntryView;

    open spec fn view(&self) -> AwarenessEntryView {
        AwarenessEntryView {
            clock: self.clock,
            state: match self.state {
                Some(s) => Some(s@),
                None => None,
            },
        }
    }
}

impl DeepView for AwarenessEntry {
    type V = AwarenessEntryView;

    open spec fn deep_view(&self) -> AwarenessEntryView {
        self.view()
    }
}

impl Clone for AwarenessEntry {
    /// A clone carries the same clock and the same blob.
    fn clone(&self) -> (r: Self)
        ensures
            r@ == self@,
    {
        AwarenessEntry { clock: self.clock, state: self.state.clone() }
    }
}

/// The first entry of a client in an entry list, scanning from the front.
pub open spec fn lookup(entries: Seq<(u64, AwarenessEntryView)>, client: u64) -> Option<
    AwarenessEntryView,
>
    decreases entries.len(),
{
    if entries.len() == 0 {
        None
    } else if entries[0].0 == client {
        Some(entries[0].1)
    } else {
        lookup(entries.drop_first(), client)
    }
}

/// No client owns two entries.
pub open spec fn unique_clients(entries: Seq<(u64, AwarenessEntryView)>) -> bool {
    forall|i: int, j: int|
        0 <= i < j < entries.len() ==> (#[trigger] entries[i]).0 != (#[trigger] entries[j]).0
}

/// Whether an incoming entry wins against the one already held: a client
/// never seen always does, a known one only with a strictly newer clock.
pub open spec fn wins(cur: Option<AwarenessEntryView>, incoming: AwarenessEntryView) -> bool {
    match cur {
        None => true,
        Some(c) => incoming.clock > c.clock,
    }
}

/// Last-write-wins per client: what one client's entry is after merging an
/// incoming entry list over a current one.
pub open spec fn spec_lww(
    cur: Option<AwarenessEntryView>,
    incoming: Option<AwarenessEntryView>,
) -> Option<AwarenessEntryView> {
    match incoming {
        None => cur,
        Some(n) => if wins(cur, n) {
            Some(n)
        } else {
            cur
        },
    }
}

/// The clients whose state an incoming entry list updates, in list order.
pub open spec fn spec_updated_ids(
    cur: Seq<(u64, AwarenessEntryView)>,
    incoming: Seq<(u64, AwarenessEntryView)>,
) -> Seq<u64>
    decreases incoming.len(),
{
    if incoming.len() == 0 {
        Seq::empty()
    } else {
        let rest = spec_updated_ids(cur, incoming.drop_last());
        let (c, e) = incoming.last();
        if wins(lookup(cur, c), e) && e.state is Some {
            rest.push(c)
        } else {
            rest
        }
    }
}

/// The clients an incoming entry list removes, in list order.
pub open spec fn spec_removed_ids(
    cur: Seq<(u64, AwarenessEntryView)>,
    incoming: Seq<(u64, AwarenessEntryView)>,
) -> Seq<u64>
    decreases incoming.len(),
{
    if incoming.len() == 0 {
        Seq::empty()
    } else {
        let rest = spec_removed_ids(cur, incoming.drop_last());
        let (c, e) = incoming.last();
        if wins(lookup(cur, c), e) && e.state is None {
            rest.push(c)
        } else {
            rest
        }
    }
}

/// The clients currently present — those holding a state blob — with their
/// blobs, in entry order.
pub open spec fn present_clients(entries: Seq<(u64, AwarenessEntryView)>) -> Seq<(u64, Seq<char>)>
    decreases entries.len(),
{
    if entries.len() == 0 {
        Seq::empty()
    } else {
        let rest = present_clients(entries.drop_last());
        let (c, e) = entries.last();
        match e.state {
            Some(s) => rest.push((c, s)),
            None => rest,
        }
    }
}

/// What an update event reports: which clients' entries changed, and which
/// were removed.
pub struct AwarenessUpdateEvent {
    pub updated: Vec<u64>,
    pub removed: Vec<u64>,
}

/// A batch of entries exchanged between replicas.
pub struct AwarenessUpdate {
    pub entries: Vec<(u64, AwarenessEntry)>,
}

impl AwarenessUpdate {
    /// The update's entry list.
    pub open spec fn model(self) -> Seq<(u64, AwarenessEntryView)> {
        self.entries.deep_view()
    }
}

/// The presence CRDT of one replica.
pub struct Awareness {
    local_client_id: u64,
    entries: Vec<(u64, AwarenessEntry)>,
}

// Lemmas connecting the front-scanning lookup to positions in the list.
/// Dropping the front entry keeps ids unique.
proof fn lemma_unique_drop_first(entries: Seq<(u64, AwarenessEntryView)>)
    requires
        unique_clients(entries),
        entries.len() > 0,
    ensures
        unique_clients(entries.drop_first()),
{
    let rest = entries.drop_first();
    assert forall|a: int, b: int|
        0 <= a < b < rest.len() implies (#[trigger] rest[a]).0 != (#[trigger] rest[b]).0 by {
        assert(rest[a] == entries[a + 1]);
        assert(rest[b] == entries[b + 1]);
    }
}

/// At the position a client holds under unique ids, lookup finds that entry.
proof fn lemma_lookup_at(entries: Seq<(u64, AwarenessEntryView)>, i: int)
    requires
        unique_clients(entries),
        0 <= i < entries.len(),
    ensures
        lookup(entries, entries[i].0) == Some(entries[i].1),
    decreases entries.len(),
{
    if i > 0 {
        assert(entries[0].0 != entries[i].0);
        lemma_unique_drop_first(entries);
        assert(entries.drop_first()[i - 1] == entries[i]);
        lemma_lookup_at(entries.drop_first(), i - 1);
    }
}

/// A client holding no position is not found.
proof fn lemma_lookup_none(entries: Seq<(u64, AwarenessEntryView)>, client: u64)
    requires
        forall|i: int| 0 <= i < entries.len() ==> (#[trigger] entries[i]).0 != client,
    ensures
        lookup(entries, client) is None,
    decreases entries.len(),
{
    if entries.len() > 0 {
        assert(forall|i: int|
            0 <= i < entries.drop_first().len() ==> (#[trigger] entries.drop_first()[i]).0
                != client) by {
            assert(forall|i: int|
                0 <= i < entries.drop_first().len() ==> entries.drop_first()[i] == entries[i + 1]);
        }
        lemma_lookup_none(entries.drop_first(), client);
    }
}

/// Appending a new entry changes lookup only for its client, and only when the
/// client held no entry before.
proof fn lemma_lookup_push(
    entries: Seq<(u64, AwarenessEntryView)>,
    client: u64,
    added: u64,
    v: AwarenessEntryView,
)
    ensures
        lookup(entries.push((added, v)), client) == (if lookup(entries, client) is Some {
            lookup(entries, client)
        } else if client == added {
            Some(v)
        } else {
            None
        }),
    decreases entries.len(),
{
    if entries.len() == 0 {
        assert(entries.push((added, v))[0] == (added, v));
        assert(entries.push((added, v)).drop_first() =~= Seq::<(u64, AwarenessEntryView)>::empty());
    } else {
        assert(entries.push((added, v))[0] == entries[0]);
        if entries[0].0 != client {
            assert(entries.push((added, v)).drop_first() =~= entries.drop_first().push((added, v)));
            lemma_lookup_push(entries.drop_first(), client, added, v);
        }
    }
}

/// Dropping the entry at one position changes lookup only for its client,
/// which is then no longer found.
proof fn lemma_lookup_remove(entries: Seq<(u64, AwarenessEntryView)>, i: int, client: u64)
    requires
        unique_clients(entries),
        0 <= i < entries.len(),
    ensures
        lookup(entries.remove(i), client) == (if entries[i].0 == client {
            None
        } else {
            lookup(entries, client)
        }),
    decreases entries.len(),
{
    if entries[i].0 == client {
        assert(forall|j: int|
            0 <= j < entries.remove(i).len() ==> (#[trigger] entries.remove(i)[j]).0 != client)
            by {
            assert(forall|j: int|
                0 <= j < entries.remove(i).len() ==> entries.remove(i)[j] == (if j < i {
                    entries[j]
                } else {
                    entries[j + 1]
                }));
        }
        lemma_lookup_none(entries.remove(i), client);
    } else {
        if i == 0 {
            assert(entries.remove(0) =~= entries.drop_first());
        } else {
            assert(entries.remove(i)[0] == entries[0]);
            if entries[0].0 != client {
                lemma_unique_drop_first(entries);
                assert(entries.remove(i).drop_first() =~= entries.drop_first().remove(i - 1));
                assert(entries.drop_first()[i - 1] == entries[i]);
                lemma_lookup_remove(entries.drop_first(), i - 1, client);
            }
        }
    }
}

/// Dropping one position keeps ids unique.
proof fn lemma_unique_remove(entries: Seq<(u64, AwarenessEntryView)>, i: int)
    requires
        unique_clients(entries),
        0 <= i < entries.len(),
    ensures
        unique_clients(entries.remove(i)),
{
    assert forall|a: int, b: int|
        0 <= a < b < entries.remove(i).len() implies (#[trigger] entries.remove(i)[a]).0
        != (#[trigger] entries.remove(i)[b]).0 by {
        assert(entries.remove(i)[a] == (if a < i {
            entries[a]
        } else {
            entries[a + 1]
        }));
        assert(entries.remove(i)[b] == (if b < i {
            entries[b]
        } else {
            entries[b + 1]
        }));
    }
}

impl Awareness {
    /// The replica's entry list.
    pub closed spec fn model(self) -> Seq<(u64, AwarenessEntryView)> {
        self.entries.deep_view()
    }

    /// The id this replica publishes under.
    pub closed spec fn local_id(self) -> u64 {
        self.local_client_id
    }

    /// Well-formed: one entry per client.
    pub open spec fn wf(self) -> bool {
        unique_clients(self.model())
    }

    /// The local client's state blob, if any.
    pub open spec fn spec_local_state(self) -> Option<Seq<char>> {
        match lookup(self.model(), self.local_id()) {
            Some(e) => e.state,
            None => None,
        }
    }

    /// The local client's logical clock; zero before the first entry.
    pub open spec fn spec_local_clock(self) -> u32 {
        match lookup(self.model(), self.local_id()) {
            Some(e) => e.clock,
            None => 0,
        }
    }

    /// A fresh replica: no entry yet, not even the local client's.
    pub fn new(local_client_id: u64) -> (r: Self)
        ensures
            r.wf(),
            r.local_id() == local_client_id,
            r.model().len() == 0,
    {
        let r = Awareness { local_client_id, entries: Vec::new() };
        proof {
            assert(r.entries.deep_view() =~~= Seq::<(u64, AwarenessEntryView)>::empty());
        }
        r
    }

    /// The id this replica publishes under.
    pub fn local_client_id(&self) -> (r: u64)
        ensures
            r == self.local_id(),
    {
        self.local_client_id
    }

    /// The position of a client's entry, if it holds one.
    fn find_index(&self, client: u64) -> (r: Option<usize>)
        ensures
            r matches Some(i) ==> i < self.model().len() && self.model()[i as int].0 == client,
            r is None ==> forall|j: int|
                0 <= j < self.model().len() ==> (#[trigger] self.model()[j]).0 != client,
    {
        let mut i: usize = 0;
        while i < self.entries.len()
            invariant
                0 <= i <= self.entries.len(),
                self.model().len() == self.entries.len(),
                forall|j: int| 0 <= j < i ==> (#[trigger] self.model()[j]).0 != client,
            decreases self.entries.len() - i,
        {
            if self.entries[i].0 == client {
                proof {
                    assert(self.model()[i as int].0 == self.entries@[i as int].0);
                }
                return Some(i);
            }
            proof {
                assert(self.model()[i as int].0 == self.entries@[i as int].0);
            }
            i = i + 1;
        }
        None
    }

    /// Replace or add one client's entry, leaving every other client's alone.
    fn upsert(&mut self, client: u64, entry: AwarenessEntry)
        requires
            old(self).wf(),
        ensures
            final(self).wf(),
            final(self).local_id() == old(self).local_id(),
            forall|c: u64|
                #[trigger] lookup(final(self).model(), c) == (if c == client {
                    Some(entry@)
                } else {
                    lookup(old(self).model(), c)
                }),
    {
        let ghost pre = self.model();
        let found = self.find_index(client);
        match found {
            Some(i) => {
                self.entries.remove(i);
                proof {
                    assert(self.entries.deep_view() =~= pre.remove(i as int));
                    lemma_unique_remove(pre, i as int);
                    assert forall|c: u64| #[trigger]
                        lookup(self.model(), c) == (if c == client {
                            None::<AwarenessEntryView>
                        } else {
                            lookup(pre, c)
                        }) by {
                        lemma_lookup_remove(pre, i as int, c);
                    }
                }
            },
            None => {
                proof {
                    assert forall|c: u64| #[trigger]
                        lookup(self.model(), c) == (if c == client {
                            None::<AwarenessEntryView>
                        } else {
                            lookup(pre, c)
                        }) by {
                        if c == client {
                            lemma_lookup_none(pre, client);
                        }
                    }
                }
            },
        }
        let ghost mid = self.model();
        let ghost v = entry@;
        self.entries.push((client, entry));
        proof {
            assert(self.entries.deep_view() =~= mid.push((client, v)));
            assert forall|c: u64| #[trigger]
                lookup(self.model(), c) == (if c == client {
                    Some(v)
                } else {
                    lookup(pre, c)
                }) by {
                lemma_lookup_push(mid, c, client, v);
                if c == client {
                    lemma_lookup_none(mid, client);
                } else {
                }
            }
            assert(unique_clients(self.model())) by {
                assert forall|a: int, b: int|
                    0 <= a < b < self.model().len() implies (#[trigger] self.model()[a]).0
                    != (#[trigger] self.model()[b]).0 by {
                    if b == self.model().len() - 1 {
                        assert(self.model()[a] == mid[a]);
                        lemma_lookup_at(mid, a);
                        lemma_lookup_none(mid, client);
                    } else {
                        assert(self.model()[a] == mid[a]);
                        assert(self.model()[b] == mid[b]);
                    }
                }
            }
        }
    }

    /// Bump the local clock and store a new local state blob; the event
    /// reports exactly the local client as updated.
    pub fn set_local_state(&mut self, state: String) -> (ev: AwarenessUpdateEvent)
        requires
            old(self).wf(),
            old(self).spec_local_clock() < u32::MAX,
        ensures
            final(self).wf(),
            final(self).local_id() == old(self).local_id(),
            final(self).spec_local_state() == Some(state@),
            final(self).spec_local_clock() == old(self).spec_local_clock() + 1,
            forall|c: u64|
                c != old(self).local_id() ==> #[trigger] lookup(final(self).model(), c) == lookup(
                    old(self).model(),
                    c,
                ),
            ev.updated@ == seq![old(self).local_id()],
            ev.removed@ == Seq::<u64>::empty(),
    {
        let clock = self.local_clock_value();
        let entry = AwarenessEntry { clock: clock + 1, state: Some(state) };
        self.upsert(self.local_client_id, entry);
        let ev = AwarenessUpdateEvent { updated: vec![self.local_client_id], removed: Vec::new() };
        proof {
            assert(ev.updated@ =~= seq![old(self).local_id()]);
            assert(ev.removed@ =~= Seq::<u64>::empty());
        }
        ev
    }

    /// Mark the local entry removed under a bumped clock, so the removal wins
    /// at every peer; the event's removed set is exactly the local client id.
    pub fn clean_local_state(&mut self) -> (ev: AwarenessUpdateEvent)
        requires
            old(self).wf(),
            old(self).spec_local_clock() < u32::MAX,
        ensures
            final(self).wf(),
            final(self).local_id() == old(self).local_id(),
            final(self).spec_local_state() is None,
            final(self).spec_local_clock() == old(self).spec_local_clock() + 1,
            forall|c: u64|
                c != old(self).local_id() ==> #[trigger] lookup(final(self).model(), c) == lookup(
                    old(self).model(),
                    c,
                ),
            ev.removed@ == seq![old(self).local_id()],
            ev.updated@ == Seq::<u64>::empty(),
    {
        let clock = self.local_clock_value();
        let entry = AwarenessEntry { clock: clock + 1, state: None };
        self.upsert(self.local_client_id, entry);
        let ev = AwarenessUpdateEvent { updated: Vec::new(), removed: vec![self.local_client_id] };
        proof {
            assert(ev.removed@ =~= seq![old(self).local_id()]);
            assert(ev.updated@ =~= Seq::<u64>::empty());
        }
        ev
    }

    /// The local client's current clock value.
    fn local_clock_value(&self) -> (r: u32)
        requires
            self.wf(),
        ensures
            r == self.spec_local_clock(),
    {
        match self.find_index(self.local_client_id) {
            Some(i) => {
                proof {
                    lemma_lookup_at(self.model(), i as int);
                    assert(self.model()[i as int].1.clock == self.entries@[i as int].1.clock);
                }
                self.entries[i].1.clock
            },
            None => {
                proof {
                    lemma_lookup_none(self.model(), self.local_client_id);
                }
                0
            },
        }
    }

    /// The local client's state blob, if it holds one.
    pub fn local_state(&self) -> (r: Option<String>)
        requires
            self.wf(),
        ensures
            r is Some <==> self.spec_local_state() is Some,
            r matches Some(s) ==> self.spec_local_state() == Some(s@),
    {
        match self.find_index(self.local_client_id) {
            Some(i) => {
                proof {
                    lemma_lookup_at(self.model(), i as int);
                }
                let e = self.entries[i].1.clone();
                e.state
            },
            None => {
                proof {
                    lemma_lookup_none(self.model(), self.local_client_id);
                }
                None
            },
        }
    }

    /// The clients currently present, each with its state blob, in entry
    /// order.
    pub fn clients(&self) -> (r: Vec<(u64, String)>)
        ensures
            r.deep_view() == present_clients(self.model()),
    {
        let mut r: Vec<(u64, String)> = Vec::new();
        let mut i: usize = 0;
        while i < self.entries.len()
            invariant
                0 <= i <= self.entries.len(),
                self.model().len() == self.entries.len(),
                r.deep_view() =~~= present_clients(self.model().take(i as int)),
            decreases self.entries.len() - i,
        {
            let ghost taken = self.model().take(i as int);
            proof {
                assert(self.model().take(i + 1).drop_last() =~= taken);
                assert(self.model().take(i + 1).last() == self.model()[i as int]);
            }
            let e = self.entries[i].1.clone();
            match e.state {
                Some(s) => {
                    r.push((self.entries[i].0, s));
                },
                None => {},
            }
            proof {
                assert(r.deep_view() =~~= present_clients(self.model().take(i + 1)));
            }
            i = i + 1;
        }
        proof {
            assert(self.model().take(self.entries.len() as int) =~= self.model());
        }
        r
    }

    /// The full update for exchange: every entry this replica holds.
    pub fn update(&self) -> (r: AwarenessUpdate)
        ensures
            r.model() == self.model(),
    {
        let mut entries: Vec<(u64, AwarenessEntry)> = Vec::new();
        let mut i: usize = 0;
        while i < self.entries.len()
            invariant
                0 <= i <= self.entries.len(),
                self.model().len() == self.entries.len(),
                entries.deep_view() =~~= self.model().take(i as int),
            decreases self.entries.len() - i,
        {
            let e = self.entries[i].1.clone();
            entries.push((self.entries[i].0, e));
            proof {
                assert(entries.deep_view() =~~= self.model().take(i + 1));
            }
            i = i + 1;
        }
        proof {
            assert(self.model().take(self.entries.len() as int) =~= self.model());
        }
        AwarenessUpdate { entries }
    }

    /// Merge an incoming entry batch, last-write-wins per client: an entry
    /// wins for a client never seen, or under a strictly newer clock. The
    /// event reports, in batch order, the clients updated and those removed.
    pub fn apply_update(&mut self, update: &AwarenessUpdate) -> (ev: AwarenessUpdateEvent)
        requires
            old(self).wf(),
            unique_clients(update.model()),
        ensures
            final(self).wf(),
            final(self).local_id() == old(self).local_id(),
            forall|c: u64|
                #[trigger] lookup(final(self).model(), c) == spec_lww(
                    lookup(old(self).model(), c),
                    lookup(update.model(), c),
                ),
            ev.updated@ == spec_updated_ids(old(self).model(), update.model()),
            ev.removed@ == spec_removed_ids(old(self).model(), update.model()),
    {
        let ghost pre = self.model();
        let ghost upd = update.model();
        let mut updated: Vec<u64> = Vec::new();
        let mut removed: Vec<u64> = Vec::new();
        let mut i: usize = 0;
        while i < update.entries.len()
            invariant
                0 <= i <= update.entries.len(),
                upd == update.model(),
                upd.len() == update.entries.len(),
                unique_clients(upd),
                self.wf(),
                self.local_id() == old(self).local_id(),
                forall|c: u64|
                    #[trigger] lookup(self.model(), c) == spec_lww(
                        lookup(pre, c),
                        lookup(upd.take(i as int), c),
                    ),
                updated@ =~= spec_updated_ids(pre, upd.take(i as int)),
                removed@ =~= spec_removed_ids(pre, upd.take(i as int)),
            decreases update.entries.len() - i,
        {
            let ghost taken = upd.take(i as int);
            proof {
                assert(upd.take(i + 1).drop_last() =~= taken);
                assert(upd.take(i + 1).last() == upd[i as int]);
                // The client of this entry has not been seen in the prefix.
                assert(forall|j: int| 0 <= j < i ==> (#[trigger] taken[j]).0 != upd[i as int].0);
                lemma_lookup_none(taken, upd[i as int].0);
                lemma_lookup_push(taken, upd[i as int].0, upd[i as int].0, upd[i as int].1);
                assert(upd.take(i + 1) =~= taken.push(upd[i as int]));
            }
            let client = update.entries[i].0;
            let incoming = update.entries[i].1.clone();
            let ghost iv = upd[i as int].1;
            proof {
                assert(upd[i as int].0 == update.entries@[i as int].0);
                assert(iv == update.entries@[i as int].1.deep_view());
                assert(incoming@ == iv);
            }
            let cur_wins = match self.find_index(client) {
                Some(idx) => {
                    proof {
                        lemma_lookup_at(self.model(), idx as int);
                        assert(self.model()[idx as int].1.clock == self.entries@[idx as int].1@.clock);
                    }
                    incoming.clock > self.entries[idx].1.clock
                },
                None => {
                    proof {
                        lemma_lookup_none(self.model(), client);
                    }
                    true
                },
            };
            if cur_wins {
                let is_present = incoming.state.is_some();
                self.upsert(client, incoming);
                if is_present {
                    updated.push(client);
                } else {
                    removed.push(client);
                }
            }
            proof {
                assert forall|c: u64| #[trigger]
                    lookup(self.model(), c) == spec_lww(
                        lookup(pre, c),
                        lookup(upd.take(i + 1), c),
                    ) by {
                    lemma_lookup_push(taken, c, upd[i as int].0, upd[i as int].1);
                }
                assert(updated@ =~= spec_updated_ids(pre, upd.take(i + 1)));
                assert(removed@ =~= spec_removed_ids(pre, upd.take(i + 1)));
            }
            i = i + 1;
        }
        proof {
            assert(upd.take(update.entries.len() as int) =~= upd);
        }
        AwarenessUpdateEvent { updated, removed }
    }
}

/// Exchanging states: when one replica knows a state for one client and an
/// incoming batch carries another client's state, the last-write-wins merge
/// holds both states verbatim, and no third client appears.
pub proof fn lemma_state_exchange(
    mine: Seq<(u64, AwarenessEntryView)>,
    incoming: Seq<(u64, AwarenessEntryView)>,
    merged: Seq<(u64, AwarenessEntryView)>,
    c1: u64,
    c2: u64,
    s1: Seq<char>,
    s2: Seq<char>,
)
    requires
        c1 != c2,
        lookup(mine, c1) matches Some(e) && e.state == Some(s1),
        lookup(incoming, c2) matches Some(e) && e.state == Some(s2),
        lookup(mine, c2) is None,
        forall|c: u64| c != c1 ==> #[trigger] lookup(mine, c) is None,
        forall|c: u64| c != c2 ==> #[trigger] lookup(incoming, c) is None,
        forall|c: u64|
            #[trigger] lookup(merged, c) == spec_lww(lookup(mine, c), lookup(incoming, c)),
    ensures
        lookup(merged, c1) matches Some(e) && e.state == Some(s1),
        lookup(merged, c2) matches Some(e) && e.state == Some(s2),
        forall|c: u64| c != c1 && c != c2 ==> #[trigger] lookup(merged, c) is None,
{
}

} // verus!
