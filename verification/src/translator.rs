//! The change translator: it classifies every structural delta by its
//! terminal path key and turns it into typed domain events. Array deltas use
//! one running offset per batch — a retain advances it, a removal captures the
//! removed index range before advancing it, an insertion leaves it alone — and
//! map deltas report view creation, update, deletion and layout changes.

use crate::views::str_eq;
use crate::views::{
    AttrMap, DatabaseLayout, DatabaseView, DatabaseViewModel, FilterMap, GroupMap, SortMap,
    RowOrder,
};
use vstd::prelude::*;

verus! {

/// The terminal key under which a view's row order list lives.
pub open spec fn row_orders_key() -> Seq<char> {
    "row_orders"@
}

/// The terminal key under which a view's filters live.
pub open spec fn filters_key() -> Seq<char> {
    "filters"@
}

/// The terminal key under which a view's sorts live.
pub open spec fn sorts_key() -> Seq<char> {
    "sorts"@
}

/// The terminal key under which a view's group settings live.
pub open spec fn groups_key() -> Seq<char> {
    "groups"@
}

/// The map key holding a view's layout.
pub open spec fn layout_key() -> Seq<char> {
    "layout"@
}

/// One segment of the path from the document root to a changed structure.
#[derive(Debug)]
pub enum PathSegment {
    Key(String),
    Index(u32),
}

/// The mathematical content of a path segment.
pub enum PathSegmentView {
    Key(Seq<char>),
    Index(u32),
}

impl View for PathSegment {
    type V = PathSegmentView;

    open spec fn view(&self) -> PathSegmentView {
        match self {
            PathSegment::Key(s) => PathSegmentView::Key(s@),
            PathSegment::Index(i) => PathSegmentView::Index(*i),
        }
    }
}

impl DeepView for PathSegment {
    type V = PathSegmentView;

    open spec fn deep_view(&self) -> PathSegmentView {
        self.view()
    }
}

/// What an array delta classifies as, by its terminal path key.
#[derive(Debug)]
pub enum ArrayChangeKey {
    Unhandled(String),
    RowOrder,
    Filter,
    Sort,
    Group,
}

/// The mathematical content of a classification.
pub enum ArrayChangeKeyView {
    Unhandled(Seq<char>),
    RowOrder,
    Filter,
    Sort,
    Group,
}

impl View for ArrayChangeKey {
    type V = ArrayChangeKeyView;

    open spec fn view(&self) -> ArrayChangeKeyView {
        match self {
            ArrayChangeKey::Unhandled(s) => ArrayChangeKeyView::Unhandled(s@),
            ArrayChangeKey::RowOrder => ArrayChangeKeyView::RowOrder,
            ArrayChangeKey::Filter => ArrayChangeKeyView::Filter,
            ArrayChangeKey::Sort => ArrayChangeKeyView::Sort,
            ArrayChangeKey::Group => ArrayChangeKeyView::Group,
        }
    }
}

/// One raw element of an array delta, already shaped: a decoded row order, a
/// decoded attribute map, or a value that failed to decode into its expected
/// shape — skipped, never fatal.
#[derive(Debug)]
pub enum ArrayValue {
    Row(RowOrder),
    Attrs(AttrMap),
    Malformed,
}

/// The mathematical content of a raw array element.
pub enum ArrayValueView {
    Row(RowOrder),
    Attrs(Seq<(Seq<char>, Seq<char>)>),
    Malformed,
}

impl View for ArrayValue {
    type V = ArrayValueView;

    open spec fn view(&self) -> ArrayValueView {
        match self {
            ArrayValue::Row(r) => ArrayValueView::Row(*r),
            ArrayValue::Attrs(a) => ArrayValueView::Attrs(a.deep_view()),
            ArrayValue::Malformed => ArrayValueView::Malformed,
        }
    }
}

impl DeepView for ArrayValue {
    type V = ArrayValueView;

    open spec fn deep_view(&self) -> ArrayValueView {
        self.view()
    }
}

/// One entry of an array delta: values added, a count removed, or a count
/// retained.
#[derive(Debug)]
pub enum ArrayChange {
    Added(Vec<ArrayValue>),
    Removed(u32),
    Retain(u32),
}

/// The mathematical content of an array delta entry.
pub enum ArrayChangeView {
    Added(Seq<ArrayValueView>),
    Removed(u32),
    Retain(u32),
}

impl View for ArrayChange {
    type V = ArrayChangeView;

    open spec fn view(&self) -> ArrayChangeView {
        match self {
            ArrayChange::Added(values) => ArrayChangeView::Added(values.deep_view()),
            ArrayChange::Removed(n) => ArrayChangeView::Removed(*n),
            ArrayChange::Retain(n) => ArrayChangeView::Retain(*n),
        }
    }
}

impl DeepView for ArrayChange {
    type V = ArrayChangeView;

    open spec fn deep_view(&self) -> ArrayChangeView {
        self.view()
    }
}

/// A structural array event: where it happened, and its delta.
pub struct ArrayEventData {
    pub path: Vec<PathSegment>,
    pub delta: Vec<ArrayChange>,
}

/// One changed key of a map event: an entry was inserted, updated (with its
/// new raw value), or removed. The views carried alongside are the decoded
/// shapes, where decoding succeeded.
#[derive(Debug)]
pub enum EntryChange {
    Inserted(Option<DatabaseView>),
    Updated(String, Option<DatabaseView>),
    Removed,
}

/// The mathematical content of a map entry change.
pub enum EntryChangeView {
    Inserted(Option<DatabaseViewModel>),
    Updated(Seq<char>, Option<DatabaseViewModel>),
    Removed,
}

impl View for EntryChange {
    type V = EntryChangeView;

    open spec fn view(&self) -> EntryChangeView {
        match self {
            EntryChange::Inserted(v) => EntryChangeView::Inserted(
                match v {
                    Some(dv) => Some(dv@),
                    None => None,
                },
            ),
            EntryChange::Updated(value, v) => EntryChangeView::Updated(
                value@,
                match v {
                    Some(dv) => Some(dv@),
                    None => None,
                },
            ),
            EntryChange::Removed => EntryChangeView::Removed,
        }
    }
}

impl DeepView for EntryChange {
    type V = EntryChangeView;

    open spec fn deep_view(&self) -> EntryChangeView {
        self.view()
    }
}

/// A structural map event: the view it targets, and its changed keys.
pub struct MapEventData {
    pub target_view_id: String,
    pub keys: Vec<(String, EntryChange)>,
}

/// A typed domain event derived from one structural delta.
#[derive(Debug)]
pub enum DatabaseViewChange {
    DidCreateView { view: DatabaseView },
    DidUpdateView { view: DatabaseView },
    DidDeleteView { view_id: String },
    LayoutSettingChanged { view_id: String, layout_type: DatabaseLayout },
    DidInsertRowOrders { row_orders: Vec<RowOrder> },
    DidDeleteRowAtIndex { index: Vec<u32> },
    DidCreateFilters { view_id: String, filters: Vec<FilterMap> },
    DidUpdateFilter { view_id: String },
    DidCreateGroupSettings { view_id: String, groups: Vec<GroupMap> },
    DidUpdateGroupSetting { view_id: String },
    DidCreateSorts { view_id: String, sorts: Vec<SortMap> },
    DidUpdateSort { view_id: String },
    DidCreateFieldOrder { view_id: String, field_order: crate::views::FieldOrder },
    DidDeleteFieldOrder { view_id: String, field_order: crate::views::FieldOrder },
}

/// The mathematical content of a domain event.
pub enum DatabaseViewChangeView {
    DidCreateView { view: DatabaseViewModel },
    DidUpdateView { view: DatabaseViewModel },
    DidDeleteView { view_id: Seq<char> },
    LayoutSettingChanged { view_id: Seq<char>, layout_type: DatabaseLayout },
    DidInsertRowOrders { row_orders: Seq<RowOrder> },
    DidDeleteRowAtIndex { index: Seq<u32> },
    DidCreateFilters { view_id: Seq<char>, filters: Seq<Seq<(Seq<char>, Seq<char>)>> },
    DidUpdateFilter { view_id: Seq<char> },
    DidCreateGroupSettings { view_id: Seq<char>, groups: Seq<Seq<(Seq<char>, Seq<char>)>> },
    DidUpdateGroupSetting { view_id: Seq<char> },
    DidCreateSorts { view_id: Seq<char>, sorts: Seq<Seq<(Seq<char>, Seq<char>)>> },
    DidUpdateSort { view_id: Seq<char> },
    DidCreateFieldOrder { view_id: Seq<char>, field_order: Seq<char> },
    DidDeleteFieldOrder { view_id: Seq<char>, field_order: Seq<char> },
}

impl View for DatabaseViewChange {
    type V = DatabaseViewChangeView;

    open spec fn view(&self) -> DatabaseViewChangeView {
        match self {
            DatabaseViewChange::DidCreateView { view } => DatabaseViewChangeView::DidCreateView {
                view: view@,
            },
            DatabaseViewChange::DidUpdateView { view } => DatabaseViewChangeView::DidUpdateView {
                view: view@,
            },
            DatabaseViewChange::DidDeleteView { view_id } => {
                DatabaseViewChangeView::DidDeleteView { view_id: view_id@ }
            },
            DatabaseViewChange::LayoutSettingChanged { view_id, layout_type } => {
                DatabaseViewChangeView::LayoutSettingChanged {
                    view_id: view_id@,
                    layout_type: *layout_type,
                }
            },
            DatabaseViewChange::DidInsertRowOrders { row_orders } => {
                DatabaseViewChangeView::DidInsertRowOrders { row_orders: row_orders@ }
            },
            DatabaseViewChange::DidDeleteRowAtIndex { index } => {
                DatabaseViewChangeView::DidDeleteRowAtIndex { index: index@ }
            },
            DatabaseViewChange::DidCreateFilters { view_id, filters } => {
                DatabaseViewChangeView::DidCreateFilters {
                    view_id: view_id@,
                    filters: filters.deep_view(),
                }
            },
            DatabaseViewChange::DidUpdateFilter { view_id } => {
                DatabaseViewChangeView::DidUpdateFilter { view_id: view_id@ }
            },
            DatabaseViewChange::DidCreateGroupSettings { view_id, groups } => {
                DatabaseViewChangeView::DidCreateGroupSettings {
                    view_id: view_id@,
                    groups: groups.deep_view(),
                }
            },
            DatabaseViewChange::DidUpdateGroupSetting { view_id } => {
                DatabaseViewChangeView::DidUpdateGroupSetting { view_id: view_id@ }
            },
            DatabaseViewChange::DidCreateSorts { view_id, sorts } => {
                DatabaseViewChangeView::DidCreateSorts {
                    view_id: view_id@,
                    sorts: sorts.deep_view(),
                }
            },
            DatabaseViewChange::DidUpdateSort { view_id } => {
                DatabaseViewChangeView::DidUpdateSort { view_id: view_id@ }
            },
            DatabaseViewChange::DidCreateFieldOrder { view_id, field_order } => {
                DatabaseViewChangeView::DidCreateFieldOrder {
                    view_id: view_id@,
                    field_order: field_order@,
                }
            },
            DatabaseViewChange::DidDeleteFieldOrder { view_id, field_order } => {
                DatabaseViewChangeView::DidDeleteFieldOrder {
                    view_id: view_id@,
                    field_order: field_order@,
                }
            },
        }
    }
}

impl DeepView for DatabaseViewChange {
    type V = DatabaseViewChangeView;

    open spec fn deep_view(&self) -> DatabaseViewChangeView {
        self.view()
    }
}

/// How a delta entry classifies by its terminal path key; an empty path or an
/// index segment classifies as unhandled.
pub open spec fn spec_key_from_path(path: Seq<PathSegmentView>) -> ArrayChangeKeyView {
    if path.len() == 0 {
        ArrayChangeKeyView::Unhandled("empty path"@)
    } else {
        match path.last() {
            PathSegmentView::Key(s) => {
                if s == row_orders_key() {
                    ArrayChangeKeyView::RowOrder
                } else if s == filters_key() {
                    ArrayChangeKeyView::Filter
                } else if s == sorts_key() {
                    ArrayChangeKeyView::Sort
                } else if s == groups_key() {
                    ArrayChangeKeyView::Group
                } else {
                    ArrayChangeKeyView::Unhandled(s)
                }
            },
            PathSegmentView::Index(_) => ArrayChangeKeyView::Unhandled("index"@),
        }
    }
}

/// The view a nested array delta belongs to: the front key of a path of at
/// least two segments.
pub open spec fn spec_view_id_from_path(path: Seq<PathSegmentView>) -> Option<Seq<char>> {
    if path.len() > 1 {
        match path[0] {
            PathSegmentView::Key(k) => Some(k),
            PathSegmentView::Index(_) => None,
        }
    } else {
        None
    }
}

impl ArrayChangeKey {
    /// Classify a delta by its terminal path key.
    pub fn from_path(path: &Vec<PathSegment>) -> (r: Self)
        ensures
            r@ == spec_key_from_path(path.deep_view()),
    {
        if path.len() == 0 {
            return ArrayChangeKey::Unhandled("empty path".to_owned());
        }
        let last = &path[path.len() - 1];
        proof {
            assert(path.deep_view().last() == path@[path.len() - 1].deep_view());
        }
        match last {
            PathSegment::Key(s) => {
                if str_eq(s.as_str(), "row_orders") {
                    ArrayChangeKey::RowOrder
                } else if str_eq(s.as_str(), "filters") {
                    ArrayChangeKey::Filter
                } else if str_eq(s.as_str(), "sorts") {
                    ArrayChangeKey::Sort
                } else if str_eq(s.as_str(), "groups") {
                    ArrayChangeKey::Group
                } else {
                    ArrayChangeKey::Unhandled(s.clone())
                }
            },
            PathSegment::Index(_) => ArrayChangeKey::Unhandled("index".to_owned()),
        }
    }
}

/// The view a nested array delta belongs to, read off the front of its path.
pub fn view_id_from_path(path: &Vec<PathSegment>) -> (r: Option<String>)
    ensures
        r is Some <==> spec_view_id_from_path(path.deep_view()) is Some,
        r matches Some(s) ==> spec_view_id_from_path(path.deep_view()) == Some(s@),
{
    if path.len() > 1 {
        proof {
            assert(path.deep_view()[0] == path@[0].deep_view());
        }
        match &path[0] {
            PathSegment::Key(k) => Some(k.clone()),
            PathSegment::Index(_) => None,
        }
    } else {
        None
    }
}

/// Parse a layout from its raw value.
pub open spec fn spec_parse_layout(s: Seq<char>) -> Option<DatabaseLayout> {
    if s == "grid"@ {
        Some(DatabaseLayout::Grid)
    } else if s == "board"@ {
        Some(DatabaseLayout::Board)
    } else if s == "calendar"@ {
        Some(DatabaseLayout::Calendar)
    } else {
        None
    }
}

/// Parse a layout from its raw value; an unknown value parses as nothing.
pub fn parse_layout(s: &str) -> (r: Option<DatabaseLayout>)
    ensures
        r == spec_parse_layout(s@),
{
    if str_eq(s, "grid") {
        Some(DatabaseLayout::Grid)
    } else if str_eq(s, "board") {
        Some(DatabaseLayout::Board)
    } else if str_eq(s, "calendar") {
        Some(DatabaseLayout::Calendar)
    } else {
        None
    }
}

/// The row orders among a batch of raw values, in order; a value of another
/// shape is skipped.
pub open spec fn decoded_rows(values: Seq<ArrayValueView>) -> Seq<RowOrder>
    decreases values.len(),
{
    if values.len() == 0 {
        Seq::empty()
    } else {
        let rest = decoded_rows(values.drop_last());
        match values.last() {
            ArrayValueView::Row(r) => rest.push(r),
            _ => rest,
        }
    }
}

/// The attribute maps among a batch of raw values, in order; a value of
/// another shape is skipped.
pub open spec fn decoded_attrs(values: Seq<ArrayValueView>) -> Seq<Seq<(Seq<char>, Seq<char>)>>
    decreases values.len(),
{
    if values.len() == 0 {
        Seq::empty()
    } else {
        let rest = decoded_attrs(values.drop_last());
        match values.last() {
            ArrayValueView::Attrs(a) => rest.push(a),
            _ => rest,
        }
    }
}

/// How far one delta entry advances the running offset.
pub open spec fn change_span(c: ArrayChangeView) -> int {
    match c {
        ArrayChangeView::Added(_) => 0,
        ArrayChangeView::Removed(n) => n as int,
        ArrayChangeView::Retain(n) => n as int,
    }
}

/// How far a whole delta batch advances the running offset.
pub open spec fn batch_span(delta: Seq<ArrayChangeView>) -> int
    decreases delta.len(),
{
    if delta.len() == 0 {
        0
    } else {
        batch_span(delta.drop_last()) + change_span(delta.last())
    }
}

/// The running state over one array delta batch: the offset, the removed row
/// indices gathered so far, and the events emitted so far.
pub struct ArrayBatch {
    pub offset: int,
    pub deleted: Seq<u32>,
    pub events: Seq<DatabaseViewChangeView>,
}

/// One step of the array delta algorithm: a retain advances the offset; an
/// insertion emits one batch-creation event for the decoded values and leaves
/// the offset alone; a removal captures the removed index range for row
/// orders, notifies the owning view for filters, sorts and groups, and
/// advances the offset in all cases.
pub open spec fn spec_array_step(
    key: ArrayChangeKeyView,
    view_id: Option<Seq<char>>,
    st: ArrayBatch,
    c: ArrayChangeView,
) -> ArrayBatch {
    match c {
        ArrayChangeView::Retain(n) => ArrayBatch { offset: st.offset + n, ..st },
        ArrayChangeView::Added(values) => match key {
            ArrayChangeKeyView::RowOrder => ArrayBatch {
                events: st.events.push(
                    DatabaseViewChangeView::DidInsertRowOrders { row_orders: decoded_rows(values) },
                ),
                ..st
            },
            ArrayChangeKeyView::Filter => match view_id {
                Some(v) => ArrayBatch {
                    events: st.events.push(
                        DatabaseViewChangeView::DidCreateFilters {
                            view_id: v,
                            filters: decoded_attrs(values),
                        },
                    ),
                    ..st
                },
                None => st,
            },
            ArrayChangeKeyView::Sort => match view_id {
                Some(v) => ArrayBatch {
                    events: st.events.push(
                        DatabaseViewChangeView::DidCreateSorts {
                            view_id: v,
                            sorts: decoded_attrs(values),
                        },
                    ),
                    ..st
                },
                None => st,
            },
            ArrayChangeKeyView::Group => match view_id {
                Some(v) => ArrayBatch {
                    events: st.events.push(
                        DatabaseViewChangeView::DidCreateGroupSettings {
                            view_id: v,
                            groups: decoded_attrs(values),
                        },
                    ),
                    ..st
                },
                None => st,
            },
            ArrayChangeKeyView::Unhandled(_) => st,
        },
        ArrayChangeView::Removed(n) => {
            let advanced = ArrayBatch { offset: st.offset + n, ..st };
            match key {
                ArrayChangeKeyView::RowOrder => ArrayBatch {
                    deleted: st.deleted + Seq::new(n as nat, |k: int| (st.offset + k) as u32),
                    ..advanced
                },
                ArrayChangeKeyView::Filter => match view_id {
                    Some(v) => ArrayBatch {
                        events: st.events.push(
                            DatabaseViewChangeView::DidUpdateFilter { view_id: v },
                        ),
                        ..advanced
                    },
                    None => advanced,
                },
                ArrayChangeKeyView::Sort => match view_id {
                    Some(v) => ArrayBatch {
                        events: st.events.push(DatabaseViewChangeView::DidUpdateSort { view_id: v }),
                        ..advanced
                    },
                    None => advanced,
                },
                ArrayChangeKeyView::Group => match view_id {
                    Some(v) => ArrayBatch {
                        events: st.events.push(
                            DatabaseViewChangeView::DidUpdateGroupSetting { view_id: v },
                        ),
                        ..advanced
                    },
                    None => advanced,
                },
                ArrayChangeKeyView::Unhandled(_) => advanced,
            }
        },
    }
}

/// The state after a whole delta batch, starting from offset zero.
pub open spec fn spec_array_batch(
    key: ArrayChangeKeyView,
    view_id: Option<Seq<char>>,
    delta: Seq<ArrayChangeView>,
) -> ArrayBatch
    decreases delta.len(),
{
    if delta.len() == 0 {
        ArrayBatch { offset: 0, deleted: Seq::empty(), events: Seq::empty() }
    } else {
        spec_array_step(key, view_id, spec_array_batch(key, view_id, delta.drop_last()), delta.last())
    }
}

/// The events one array delta batch emits: those of its entries, and — once,
/// at batch end — the removed row indices gathered across the batch.
pub open spec fn spec_translate_array(
    key: ArrayChangeKeyView,
    view_id: Option<Seq<char>>,
    delta: Seq<ArrayChangeView>,
) -> Seq<DatabaseViewChangeView> {
    let st = spec_array_batch(key, view_id, delta);
    if st.deleted.len() > 0 {
        st.events.push(DatabaseViewChangeView::DidDeleteRowAtIndex { index: st.deleted })
    } else {
        st.events
    }
}

/// The batch offset is exactly the batch's span.
proof fn lemma_batch_offset(
    key: ArrayChangeKeyView,
    view_id: Option<Seq<char>>,
    delta: Seq<ArrayChangeView>,
)
    ensures
        spec_array_batch(key, view_id, delta).offset == batch_span(delta),
    decreases delta.len(),
{
    if delta.len() > 0 {
        lemma_batch_offset(key, view_id, delta.drop_last());
    }
}

/// A prefix never spans more than the whole batch.
proof fn lemma_span_take_le(delta: Seq<ArrayChangeView>, j: int)
    requires
        0 <= j <= delta.len(),
    ensures
        batch_span(delta.take(j)) <= batch_span(delta),
    decreases delta.len() - j,
{
    if j == delta.len() {
        assert(delta.take(j) =~= delta);
    } else {
        assert(delta.take(j + 1).drop_last() =~= delta.take(j));
        assert(delta.take(j + 1).last() == delta[j]);
        assert(change_span(delta[j]) >= 0);
        lemma_span_take_le(delta, j + 1);
    }
}

/// Whether a delta batch's span — how far its retains and removals advance
/// the running offset — fits the offset's type, so the batch can be handled.
pub fn span_fits(delta: &Vec<ArrayChange>) -> (r: bool)
    ensures
        r == (batch_span(delta.deep_view()) <= u32::MAX),
{
    let ghost dv = delta.deep_view();
    let mut acc: u64 = 0;
    let mut i: usize = 0;
    while i < delta.len()
        invariant
            0 <= i <= delta.len(),
            dv == delta.deep_view(),
            dv.len() == delta.len(),
            acc == batch_span(dv.take(i as int)),
            acc <= u32::MAX,
        decreases delta.len() - i,
    {
        proof {
            assert(dv.take(i + 1).drop_last() =~= dv.take(i as int));
            assert(dv.take(i + 1).last() == dv[i as int]);
            assert(dv[i as int] == delta@[i as int].deep_view());
        }
        let n: u32 = match &delta[i] {
            ArrayChange::Added(_) => 0,
            ArrayChange::Removed(count) => *count,
            ArrayChange::Retain(count) => *count,
        };
        acc = acc + (n as u64);
        if acc > (u32::MAX as u64) {
            proof {
                lemma_span_take_le(dv, i + 1);
            }
            return false;
        }
        i = i + 1;
    }
    proof {
        assert(dv.take(delta.len() as int) =~= dv);
    }
    true
}

/// The row orders among a batch of raw values.
fn decode_rows(values: &Vec<ArrayValue>) -> (r: Vec<RowOrder>)
    ensures
        r@ == decoded_rows(values.deep_view()),
{
    let mut r: Vec<RowOrder> = Vec::new();
    let mut i: usize = 0;
    while i < values.len()
        invariant
            0 <= i <= values.len(),
            r@ =~= decoded_rows(values.deep_view().take(i as int)),
        decreases values.len() - i,
    {
        proof {
            assert(values.deep_view().take(i + 1).drop_last() =~= values.deep_view().take(i as int));
            assert(values.deep_view().take(i + 1).last() == values.deep_view()[i as int]);
            assert(values.deep_view()[i as int] == values@[i as int].deep_view());
        }
        match &values[i] {
            ArrayValue::Row(row) => {
                r.push(*row);
            },
            ArrayValue::Attrs(_) => {},
            ArrayValue::Malformed => {},
        }
        proof {
            assert(r@ =~= decoded_rows(values.deep_view().take(i + 1)));
        }
        i = i + 1;
    }
    proof {
        assert(values.deep_view().take(values.len() as int) =~= values.deep_view());
    }
    r
}

/// The attribute maps among a batch of raw values.
fn decode_attrs(values: &Vec<ArrayValue>) -> (r: Vec<AttrMap>)
    ensures
        r.deep_view() == decoded_attrs(values.deep_view()),
{
    let mut r: Vec<AttrMap> = Vec::new();
    let mut i: usize = 0;
    while i < values.len()
        invariant
            0 <= i <= values.len(),
            r.deep_view() =~~= decoded_attrs(values.deep_view().take(i as int)),
        decreases values.len() - i,
    {
        proof {
            assert(values.deep_view().take(i + 1).drop_last() =~= values.deep_view().take(i as int));
            assert(values.deep_view().take(i + 1).last() == values.deep_view()[i as int]);
            assert(values.deep_view()[i as int] == values@[i as int].deep_view());
        }
        match &values[i] {
            ArrayValue::Attrs(attrs) => {
                r.push(attrs.clone());
            },
            ArrayValue::Row(_) => {},
            ArrayValue::Malformed => {},
        }
        proof {
            assert(r.deep_view() =~~= decoded_attrs(values.deep_view().take(i + 1)));
        }
        i = i + 1;
    }
    proof {
        assert(values.deep_view().take(values.len() as int) =~~= values.deep_view());
    }
    r
}

/// Handle one array event: classify it by its terminal path key, walk its
/// delta with one running offset, and emit the typed events — including, at
/// batch end, one event carrying every removed row index.
pub fn handle_array_event(event: &ArrayEventData) -> (r: Vec<DatabaseViewChange>)
    requires
        batch_span(event.delta.deep_view()) <= u32::MAX,
    ensures
        r.deep_view() == spec_translate_array(
            spec_key_from_path(event.path.deep_view()),
            spec_view_id_from_path(event.path.deep_view()),
            event.delta.deep_view(),
        ),
{
    let key = ArrayChangeKey::from_path(&event.path);
    let view_id = view_id_from_path(&event.path);
    let ghost keyv = spec_key_from_path(event.path.deep_view());
    let ghost vidv = spec_view_id_from_path(event.path.deep_view());
    let ghost delta = event.delta.deep_view();

    let mut offset: u32 = 0;
    let mut deleted: Vec<u32> = Vec::new();
    let mut events: Vec<DatabaseViewChange> = Vec::new();
    let mut i: usize = 0;
    while i < event.delta.len()
        invariant
            0 <= i <= event.delta.len(),
            delta == event.delta.deep_view(),
            delta.len() == event.delta.len(),
            batch_span(delta) <= u32::MAX,
            key@ == keyv,
            view_id is Some <==> vidv is Some,
            view_id matches Some(s) ==> vidv == Some(s@),
            offset as int == spec_array_batch(keyv, vidv, delta.take(i as int)).offset,
            deleted@ =~= spec_array_batch(keyv, vidv, delta.take(i as int)).deleted,
            events.deep_view() =~~= spec_array_batch(keyv, vidv, delta.take(i as int)).events,
        decreases event.delta.len() - i,
    {
        let ghost taken = delta.take(i as int);
        let ghost st = spec_array_batch(keyv, vidv, taken);
        proof {
            assert(delta.take(i + 1).drop_last() =~= taken);
            assert(delta.take(i + 1).last() == delta[i as int]);
            assert(delta[i as int] == event.delta@[i as int].deep_view());
            lemma_batch_offset(keyv, vidv, taken);
            lemma_batch_offset(keyv, vidv, delta.take(i + 1));
            lemma_span_take_le(delta, i + 1);
        }
        match &event.delta[i] {
            ArrayChange::Retain(n) => {
                offset = offset + *n;
            },
            ArrayChange::Added(values) => {
                match &key {
                    ArrayChangeKey::RowOrder => {
                        let row_orders = decode_rows(values);
                        events.push(DatabaseViewChange::DidInsertRowOrders { row_orders });
                    },
                    ArrayChangeKey::Filter => {
                        if let Some(vid) = &view_id {
                            let filters = decode_attrs(values);
                            events.push(
                                DatabaseViewChange::DidCreateFilters {
                                    view_id: vid.clone(),
                                    filters,
                                },
                            );
                        }
                    },
                    ArrayChangeKey::Sort => {
                        if let Some(vid) = &view_id {
                            let sorts = decode_attrs(values);
                            events.push(
                                DatabaseViewChange::DidCreateSorts { view_id: vid.clone(), sorts },
                            );
                        }
                    },
                    ArrayChangeKey::Group => {
                        if let Some(vid) = &view_id {
                            let groups = decode_attrs(values);
                            events.push(
                                DatabaseViewChange::DidCreateGroupSettings {
                                    view_id: vid.clone(),
                                    groups,
                                },
                            );
                        }
                    },
                    ArrayChangeKey::Unhandled(_) => {},
                }
            },
            ArrayChange::Removed(n) => {
                match &key {
                    ArrayChangeKey::RowOrder => {
                        let mut k: u32 = 0;
                        while k < *n
                            invariant
                                0 <= k <= *n,
                                st.offset == offset as int,
                                st.offset + *n <= u32::MAX,
                                deleted@ =~= st.deleted + Seq::new(
                                    k as nat,
                                    |t: int| (st.offset + t) as u32,
                                ),
                            decreases *n - k,
                        {
                            deleted.push(offset + k);
                            proof {
                                assert(deleted@ =~= st.deleted + Seq::new(
                                    (k + 1) as nat,
                                    |t: int| (st.offset + t) as u32,
                                ));
                            }
                            k = k + 1;
                        }
                        offset = offset + *n;
                    },
                    ArrayChangeKey::Filter => {
                        if let Some(vid) = &view_id {
                            events.push(
                                DatabaseViewChange::DidUpdateFilter { view_id: vid.clone() },
                            );
                        }
                        offset = offset + *n;
                    },
                    ArrayChangeKey::Sort => {
                        if let Some(vid) = &view_id {
                            events.push(DatabaseViewChange::DidUpdateSort { view_id: vid.clone() });
                        }
                        offset = offset + *n;
                    },
                    ArrayChangeKey::Group => {
                        if let Some(vid) = &view_id {
                            events.push(
                                DatabaseViewChange::DidUpdateGroupSetting { view_id: vid.clone() },
                            );
                        }
                        offset = offset + *n;
                    },
                    ArrayChangeKey::Unhandled(_) => {
                        offset = offset + *n;
                    },
                }
            },
        }
        proof {
            assert(offset as int == spec_array_batch(keyv, vidv, delta.take(i + 1)).offset);
            assert(deleted@ =~= spec_array_batch(keyv, vidv, delta.take(i + 1)).deleted);
            assert(events.deep_view() =~~= spec_array_batch(keyv, vidv, delta.take(i + 1)).events);
        }
        i = i + 1;
    }
    proof {
        assert(delta.take(event.delta.len() as int) =~= delta);
    }
    if deleted.len() > 0 {
        events.push(DatabaseViewChange::DidDeleteRowAtIndex { index: deleted });
        proof {
            assert(events.deep_view() =~~= spec_translate_array(keyv, vidv, delta));
        }
    }
    events
}

/// The events one changed map key emits: an insertion reports the created
/// view; an update reports the updated view, and a layout change too when the
/// changed key is the layout key and its value parses; a removal reports the
/// deleted view under the removed key — suppressed when that key is empty.
pub open spec fn spec_map_entry(
    target_view_id: Seq<char>,
    key: Seq<char>,
    change: EntryChangeView,
) -> Seq<DatabaseViewChangeView> {
    match change {
        EntryChangeView::Inserted(ov) => match ov {
            Some(v) => seq![DatabaseViewChangeView::DidCreateView { view: v }],
            None => Seq::empty(),
        },
        EntryChangeView::Updated(value, ov) => {
            let update_events = match ov {
                Some(v) => seq![DatabaseViewChangeView::DidUpdateView { view: v }],
                None => Seq::empty(),
            };
            if key == layout_key() && spec_parse_layout(value) is Some {
                update_events.push(
                    DatabaseViewChangeView::LayoutSettingChanged {
                        view_id: target_view_id,
                        layout_type: spec_parse_layout(value).unwrap(),
                    },
                )
            } else {
                update_events
            }
        },
        EntryChangeView::Removed => {
            if key.len() > 0 {
                seq![DatabaseViewChangeView::DidDeleteView { view_id: key }]
            } else {
                Seq::empty()
            }
        },
    }
}

/// The events a whole map event emits, key by key.
pub open spec fn spec_translate_map(
    target_view_id: Seq<char>,
    keys: Seq<(Seq<char>, EntryChangeView)>,
) -> Seq<DatabaseViewChangeView>
    decreases keys.len(),
{
    if keys.len() == 0 {
        Seq::empty()
    } else {
        spec_translate_map(target_view_id, keys.drop_last()) + spec_map_entry(
            target_view_id,
            keys.last().0,
            keys.last().1,
        )
    }
}

/// Handle one map event, changed key by changed key.
pub fn handle_map_event(event: &MapEventData) -> (r: Vec<DatabaseViewChange>)
    ensures
        r.deep_view() == spec_translate_map(event.target_view_id@, event.keys.deep_view()),
{
    let ghost keys = event.keys.deep_view();
    let mut events: Vec<DatabaseViewChange> = Vec::new();
    let mut i: usize = 0;
    while i < event.keys.len()
        invariant
            0 <= i <= event.keys.len(),
            keys == event.keys.deep_view(),
            keys.len() == event.keys.len(),
            events.deep_view() =~~= spec_translate_map(event.target_view_id@, keys.take(i as int)),
        decreases event.keys.len() - i,
    {
        proof {
            assert(keys.take(i + 1).drop_last() =~= keys.take(i as int));
            assert(keys.take(i + 1).last() == keys[i as int]);
            assert(keys[i as int] == event.keys@[i as int].deep_view());
        }
        let key = &event.keys[i].0;
        match &event.keys[i].1 {
            EntryChange::Inserted(ov) => {
                match ov {
                    Some(view) => {
                        events.push(DatabaseViewChange::DidCreateView { view: view.clone() });
                    },
                    None => {},
                }
            },
            EntryChange::Updated(value, ov) => {
                match ov {
                    Some(view) => {
                        events.push(DatabaseViewChange::DidUpdateView { view: view.clone() });
                    },
                    None => {},
                }
                if str_eq(key.as_str(), "layout") {
                    match parse_layout(value.as_str()) {
                        Some(layout_type) => {
                            events.push(
                                DatabaseViewChange::LayoutSettingChanged {
                                    view_id: event.target_view_id.clone(),
                                    layout_type,
                                },
                            );
                        },
                        None => {},
                    }
                }
            },
            EntryChange::Removed => {
                if !key.as_str().is_empty() {
                    events.push(DatabaseViewChange::DidDeleteView { view_id: key.clone() });
                }
            },
        }
        proof {
            assert(events.deep_view() =~~= spec_translate_map(
                event.target_view_id@,
                keys.take(i + 1),
            ));
        }
        i = i + 1;
    }
    proof {
        assert(keys.take(event.keys.len() as int) =~= keys);
    }
    events
}

/// One structural event of the document, as the deep observer hands them out;
/// text and XML events carry nothing this translator reads.
pub enum DocEvent {
    Array(ArrayEventData),
    MapChange(MapEventData),
    Text,
    XmlFragment,
    XmlText,
}

/// The events one structural event translates to.
pub open spec fn spec_translate_event(ev: DocEvent) -> Seq<DatabaseViewChangeView> {
    match ev {
        DocEvent::Array(a) => spec_translate_array(
            spec_key_from_path(a.path.deep_view()),
            spec_view_id_from_path(a.path.deep_view()),
            a.delta.deep_view(),
        ),
        DocEvent::MapChange(m) => spec_translate_map(m.target_view_id@, m.keys.deep_view()),
        _ => Seq::empty(),
    }
}

/// Translate a batch of structural events into domain events, in order. This
/// is what a deep-observe subscription runs on every transaction's events.
pub fn translate_events(events: &Vec<DocEvent>) -> (r: Vec<DatabaseViewChange>)
    requires
        forall|i: int|
            0 <= i < events.len() ==> ((#[trigger] events[i]) matches DocEvent::Array(a) ==>
            batch_span(a.delta.deep_view()) <= u32::MAX),
    ensures
        r.deep_view() == spec_translate_events(events@),
{
    let mut r: Vec<DatabaseViewChange> = Vec::new();
    let mut i: usize = 0;
    while i < events.len()
        invariant
            0 <= i <= events.len(),
            forall|j: int|
                0 <= j < events.len() ==> ((#[trigger] events[j]) matches DocEvent::Array(a) ==>
                batch_span(a.delta.deep_view()) <= u32::MAX),
            r.deep_view() =~~= spec_translate_events(events@.take(i as int)),
        decreases events.len() - i,
    {
        proof {
            assert(events@.take(i + 1).drop_last() =~= events@.take(i as int));
            assert(events@.take(i + 1).last() == events@[i as int]);
        }
        let mut translated = match &events[i] {
            DocEvent::Array(a) => handle_array_event(a),
            DocEvent::MapChange(m) => handle_map_event(m),
            DocEvent::Text => Vec::new(),
            DocEvent::XmlFragment => Vec::new(),
            DocEvent::XmlText => Vec::new(),
        };
        proof {
            if !(events@[i as int] matches DocEvent::Array(_)) && !(events@[i as int]
                matches DocEvent::MapChange(_)) {
                assert(translated.deep_view() =~~= Seq::<DatabaseViewChangeView>::empty());
            }
        }
        let ghost tv = translated.deep_view();
        r.append(&mut translated);
        proof {
            assert(r.deep_view() =~~= spec_translate_events(events@.take(i as int)) + tv);
            assert(r.deep_view() =~~= spec_translate_events(events@.take(i + 1)));
        }
        i = i + 1;
    }
    proof {
        assert(events@.take(events.len() as int) =~= events@);
    }
    r
}

/// The events a batch of structural events translates to, in order.
pub open spec fn spec_translate_events(events: Seq<DocEvent>) -> Seq<DatabaseViewChangeView>
    decreases events.len(),
{
    if events.len() == 0 {
        Seq::empty()
    } else {
        spec_translate_events(events.drop_last()) + spec_translate_event(events.last())
    }
}

} // verus!
