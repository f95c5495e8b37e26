//! The materialized database views: each view keeps its own ordered list of
//! row references over the shared rows. Creating, removing or inserting a row
//! touches every view; moving a row reorders one view alone.

use crate::counter;
use vstd::prelude::*;

verus! {

/// The layout a view renders under.
#[derive(Clone, Copy, Debug, PartialEq, Eq, Structural)]
pub enum DatabaseLayout {
    Grid,
    Board,
    Calendar,
}

/// A row's identity.
#[derive(Clone, Copy, Debug, PartialEq, Eq, Structural)]
pub struct RowId {
    pub value: i64,
}

impl core::convert::From<i64> for RowId {
    fn from(value: i64) -> (r: Self) {
        RowId { value }
    }
}

impl vstd::std_specs::convert::FromSpecImpl<i64> for RowId {
    open spec fn obeys_from_spec() -> bool {
        true
    }

    open spec fn from_spec(value: i64) -> Self {
        RowId { value }
    }
}

/// A fresh row id from the wall clock's high bits and random low bits,
/// collision-resistant across processes. The sign bit is cleared, so the id
/// is never negative; nothing more is promised of the value.
pub fn gen_row_id() -> (r: RowId)
    ensures
        r.value >= 0,
{
    let raw = counter::seed_value();
    let masked: u64 = raw & 0x7FFF_FFFF_FFFF_FFFF;
    proof {
        assert(masked <= 0x7FFF_FFFF_FFFF_FFFFu64) by (bit_vector)
            requires
                masked == raw & 0x7FFF_FFFF_FFFF_FFFFu64,
        ;
    }
    RowId { value: masked as i64 }
}

/// One row reference inside a view's order: the row, the block holding it,
/// and its display height.
#[derive(Clone, Copy, Debug, PartialEq, Eq, Structural)]
pub struct RowOrder {
    pub id: RowId,
    pub block_id: i64,
    pub height: i32,
}

/// One row's data, as a view materializes it.
#[derive(Clone, Copy, Debug, PartialEq, Eq, Structural)]
pub struct Row {
    pub id: RowId,
    pub height: i32,
}

/// One field's place in a view's field order.
#[derive(Debug)]
pub struct FieldOrder {
    pub id: String,
}

impl View for FieldOrder {
    type V = Seq<char>;

    open spec fn view(&self) -> Seq<char> {
        self.id@
    }
}

impl DeepView for FieldOrder {
    type V = Seq<char>;

    open spec fn deep_view(&self) -> Seq<char> {
        self.id@
    }
}

impl Clone for FieldOrder {
    /// A clone carries the same id.
    fn clone(&self) -> (r: Self)
        ensures
            r@ == self@,
    {
        FieldOrder { id: self.id.clone() }
    }
}

/// An attribute map: string keys to string values, as a filter, sort or group
/// setting carries them.
#[derive(Debug)]
pub struct AttrMap {
    pub entries: Vec<(String, String)>,
}

impl View for AttrMap {
    type V = Seq<(Seq<char>, Seq<char>)>;

    open spec fn view(&self) -> Seq<(Seq<char>, Seq<char>)> {
        self.entries.deep_view()
    }
}

impl DeepView for AttrMap {
    type V = Seq<(Seq<char>, Seq<char>)>;

    open spec fn deep_view(&self) -> Seq<(Seq<char>, Seq<char>)> {
        self.entries.deep_view()
    }
}

/// Clone a list of string pairs with its exact contents.
fn clone_string_pairs(v: &Vec<(String, String)>) -> (r: Vec<(String, String)>)
    ensures
        r.deep_view() == v.deep_view(),
{
    let mut r: Vec<(String, String)> = Vec::new();
    let mut i: usize = 0;
    while i < v.len()
        invariant
            0 <= i <= v.len(),
            r@.len() == i,
            r.deep_view() =~~= v.deep_view().take(i as int),
        decreases v.len() - i,
    {
        let key = v[i].0.clone();
        let value = v[i].1.clone();
        r.push((key, value));
        proof {
            assert(r.deep_view() =~~= v.deep_view().take(i + 1));
        }
        i = i + 1;
    }
    proof {
        assert(v.deep_view().take(v.len() as int) =~~= v.deep_view());
    }
    r
}

impl Clone for AttrMap {
    /// A clone carries the same entries.
    fn clone(&self) -> (r: Self)
        ensures
            r@ == self@,
    {
        AttrMap { entries: clone_string_pairs(&self.entries) }
    }
}

/// A filter setting of a view.
pub type FilterMap = AttrMap;

/// A sort setting of a view.
pub type SortMap = AttrMap;

/// A group setting of a view.
pub type GroupMap = AttrMap;

/// The mathematical content of a view.
pub struct DatabaseViewModel {
    pub id: Seq<char>,
    pub name: Seq<char>,
    pub layout: DatabaseLayout,
    pub row_orders: Seq<RowOrder>,
    pub field_orders: Seq<Seq<char>>,
}

/// One database view: its identity, its layout, and its own row and field
/// orders.
#[derive(Debug)]
pub struct DatabaseView {
    pub id: String,
    pub name: String,
    pub layout: DatabaseLayout,
    pub row_orders: Vec<RowOrder>,
    pub field_orders: Vec<FieldOrder>,
}

impl View for DatabaseView {
    type V = DatabaseViewModel;

    open spec fn view(&self) -> DatabaseViewModel {
        DatabaseViewModel {
            id: self.id@,
            name: self.name@,
            layout: self.layout,
            row_orders: self.row_orders@,
            field_orders: self.field_orders.deep_view(),
        }
    }
}

impl DeepView for DatabaseView {
    type V = DatabaseViewModel;

    open spec fn deep_view(&self) -> DatabaseViewModel {
        self.view()
    }
}

/// Clone a field order list with its exact contents.
fn clone_field_orders(v: &Vec<FieldOrder>) -> (r: Vec<FieldOrder>)
    ensures
        r.deep_view() == v.deep_view(),
{
    let mut r: Vec<FieldOrder> = Vec::new();
    let mut i: usize = 0;
    while i < v.len()
        invariant
            0 <= i <= v.len(),
            r@.len() == i,
            r.deep_view() =~~= v.deep_view().take(i as int),
        decreases v.len() - i,
    {
        let f = v[i].clone();
        proof {
            assert(f.deep_view() =~= v.deep_view()[i as int]);
        }
        r.push(f);
        proof {
            assert(r@.len() == i + 1);
            assert forall|j: int| 0 <= j < i + 1 implies r.deep_view()[j] == v.deep_view().take(
                i + 1,
            )[j] by {
                if j < i {
                    assert(r.deep_view()[j] == v.deep_view().take(i as int)[j]);
                }
            }
            assert(r.deep_view() =~~= v.deep_view().take(i + 1));
        }
        i = i + 1;
    }
    proof {
        assert(v.deep_view().take(v.len() as int) =~~= v.deep_view());
    }
    r
}

impl Clone for DatabaseView {
    /// A clone carries the same identity, layout and orders.
    fn clone(&self) -> (r: Self)
        ensures
            r@ == self@,
    {
        let row_orders = self.row_orders.clone();
        proof {
            assert(row_orders@ =~= self.row_orders@);
        }
        DatabaseView {
            id: self.id.clone(),
            name: self.name.clone(),
            layout: self.layout,
            row_orders,
            field_orders: clone_field_orders(&self.field_orders),
        }
    }
}

/// What a new view is built from.
pub struct CreateViewParams {
    pub view_id: String,
    pub name: String,
    pub layout: DatabaseLayout,
}

impl core::default::Default for CreateViewParams {
    fn default() -> (r: Self)
        ensures
            r.view_id@ == Seq::<char>::empty(),
            r.name@ == Seq::<char>::empty(),
            r.layout == DatabaseLayout::Grid,
    {
        CreateViewParams { view_id: String::new(), name: String::new(), layout: DatabaseLayout::Grid }
    }
}

/// What a new row is built from: its id, where it goes — after `prev_row_id`,
/// or at the front without one — and its height.
pub struct CreateRowParams {
    pub id: RowId,
    pub prev_row_id: Option<RowId>,
    pub height: i32,
}

impl core::default::Default for CreateRowParams {
    fn default() -> (r: Self)
        ensures
            r.id == (RowId { value: 0 }),
            r.prev_row_id is None,
            r.height == 60,
    {
        CreateRowParams { id: RowId { value: 0 }, prev_row_id: None, height: 60 }
    }
}

/// Whether two strings hold the same characters.
pub(crate) fn str_eq(a: &str, b: &str) -> (r: bool)
    ensures
        r == (a@ == b@),
{
    let a_owned = a.to_owned();
    let b_owned = b.to_owned();
    a_owned == b_owned
}

/// The position of the first row with an id, scanning from the front.
pub open spec fn find_row(rows: Seq<RowOrder>, id: RowId) -> Option<int>
    decreases rows.len(),
{
    if rows.len() == 0 {
        None
    } else if rows[0].id == id {
        Some(0int)
    } else {
        match find_row(rows.drop_first(), id) {
            Some(i) => Some(i + 1),
            None => None,
        }
    }
}

/// Where a new row lands in one view's order: at the front without a
/// predecessor, right after the predecessor where it stands, at the back when
/// the predecessor is unknown.
pub open spec fn spec_insert_row(rows: Seq<RowOrder>, row: RowOrder, prev: Option<RowId>) -> Seq<
    RowOrder,
> {
    match prev {
        None => seq![row] + rows,
        Some(p) => match find_row(rows, p) {
            Some(i) => rows.insert(i + 1, row),
            None => rows.push(row),
        },
    }
}

/// One view's order after removing a row: the first reference to it leaves,
/// or nothing changes if the view does not hold it.
pub open spec fn spec_remove_row(rows: Seq<RowOrder>, id: RowId) -> Seq<RowOrder> {
    match find_row(rows, id) {
        Some(i) => rows.remove(i),
        None => rows,
    }
}

/// One view's order after moving the row at `from` to position `to`; indices
/// out of range move nothing.
pub open spec fn spec_move_row(rows: Seq<RowOrder>, from: int, to: int) -> Seq<RowOrder> {
    if 0 <= from < rows.len() && 0 <= to < rows.len() {
        rows.remove(from).insert(to, rows[from])
    } else {
        rows
    }
}

/// A found position holds the id, and nothing before it does.
proof fn lemma_find_row_at(rows: Seq<RowOrder>, id: RowId, i: int)
    requires
        0 <= i < rows.len(),
        rows[i].id == id,
        forall|j: int| 0 <= j < i ==> rows[j].id != id,
    ensures
        find_row(rows, id) == Some(i),
    decreases rows.len(),
{
    if i > 0 {
        assert(rows.drop_first()[i - 1] == rows[i]);
        assert(forall|j: int| 0 <= j < i - 1 ==> rows.drop_first()[j] == rows[j + 1]);
        lemma_find_row_at(rows.drop_first(), id, i - 1);
    }
}

/// An id nowhere in the order is not found.
proof fn lemma_find_row_none(rows: Seq<RowOrder>, id: RowId)
    requires
        forall|j: int| 0 <= j < rows.len() ==> rows[j].id != id,
    ensures
        find_row(rows, id) is None,
    decreases rows.len(),
{
    if rows.len() > 0 {
        assert(forall|j: int| 0 <= j < rows.drop_first().len() ==> rows.drop_first()[j] == rows[j
            + 1]);
        lemma_find_row_none(rows.drop_first(), id);
    }
}

/// The position of the first row holding an id, if any.
fn find_row_index(rows: &Vec<RowOrder>, id: RowId) -> (r: Option<usize>)
    ensures
        r matches Some(i) ==> i < rows.len() && find_row(rows@, id) == Some(i as int),
        r is None ==> find_row(rows@, id) is None,
{
    let mut i: usize = 0;
    while i < rows.len()
        invariant
            0 <= i <= rows.len(),
            forall|j: int| 0 <= j < i ==> rows@[j].id != id,
        decreases rows.len() - i,
    {
        if rows[i].id == id {
            proof {
                lemma_find_row_at(rows@, id, i as int);
            }
            return Some(i);
        }
        i = i + 1;
    }
    proof {
        lemma_find_row_none(rows@, id);
    }
    None
}

/// Insert a row into one order per `spec_insert_row`.
fn insert_row_in_order(rows: &mut Vec<RowOrder>, row: RowOrder, prev: Option<RowId>)
    ensures
        final(rows)@ == spec_insert_row(old(rows)@, row, prev),
{
    match prev {
        None => {
            rows.insert(0, row);
            proof {
                assert(rows@ =~= seq![row] + old(rows)@);
            }
        },
        Some(p) => {
            match find_row_index(rows, p) {
                Some(i) => {
                    rows.insert(i + 1, row);
                },
                None => {
                    rows.push(row);
                },
            }
        },
    }
}

/// The named views of a database.
pub struct Views {
    pub(crate) views: Vec<DatabaseView>,
}

/// The position of the first view with an id, scanning from the front.
pub open spec fn find_view(views: Seq<DatabaseViewModel>, id: Seq<char>) -> Option<int>
    decreases views.len(),
{
    if views.len() == 0 {
        None
    } else if views[0].id == id {
        Some(0int)
    } else {
        match find_view(views.drop_first(), id) {
            Some(i) => Some(i + 1),
            None => None,
        }
    }
}

/// A found position holds the id, and nothing before it does.
proof fn lemma_find_view_at(views: Seq<DatabaseViewModel>, id: Seq<char>, i: int)
    requires
        0 <= i < views.len(),
        views[i].id == id,
        forall|j: int| 0 <= j < i ==> (#[trigger] views[j]).id != id,
    ensures
        find_view(views, id) == Some(i),
    decreases views.len(),
{
    if i > 0 {
        assert(views.drop_first()[i - 1] == views[i]);
        assert(forall|j: int|
            0 <= j < i - 1 ==> (#[trigger] views.drop_first()[j]) == views[j + 1]);
        lemma_find_view_at(views.drop_first(), id, i - 1);
    }
}

/// An id nowhere among the views is not found.
proof fn lemma_find_view_none(views: Seq<DatabaseViewModel>, id: Seq<char>)
    requires
        forall|j: int| 0 <= j < views.len() ==> (#[trigger] views[j]).id != id,
    ensures
        find_view(views, id) is None,
    decreases views.len(),
{
    if views.len() > 0 {
        assert(forall|j: int|
            0 <= j < views.drop_first().len() ==> (#[trigger] views.drop_first()[j]) == views[j
                + 1]);
        lemma_find_view_none(views.drop_first(), id);
    }
}

impl Views {
    /// The views' mathematical content, in creation order.
    pub closed spec fn model(self) -> Seq<DatabaseViewModel> {
        self.views.deep_view()
    }

    /// The position of the first view with an id, if any.
    fn find_index(&self, view_id: &str) -> (r: Option<usize>)
        ensures
            r matches Some(i) ==> i < self.views.len() && find_view(self.model(), view_id@)
                == Some(i as int),
            r is None ==> find_view(self.model(), view_id@) is None,
    {
        let mut i: usize = 0;
        while i < self.views.len()
            invariant
                0 <= i <= self.views.len(),
                self.model().len() == self.views.len(),
                forall|j: int| 0 <= j < i ==> (#[trigger] self.model()[j]).id != view_id@,
            decreases self.views.len() - i,
        {
            if str_eq(self.views[i].id.as_str(), view_id) {
                proof {
                    assert(self.model()[i as int].id == self.views@[i as int].id@);
                    lemma_find_view_at(self.model(), view_id@, i as int);
                }
                return Some(i);
            }
            proof {
                assert(self.model()[i as int].id == self.views@[i as int].id@);
            }
            i = i + 1;
        }
        proof {
            lemma_find_view_none(self.model(), view_id@);
        }
        None
    }

    /// A copy of the first view with that id, if any.
    pub fn get_view(&self, view_id: &str) -> (r: Option<DatabaseView>)
        ensures
            r is Some <==> find_view(self.model(), view_id@) is Some,
            r matches Some(v) ==> find_view(self.model(), view_id@) matches Some(i) && v@
                == self.model()[i],
    {
        match self.find_index(view_id) {
            Some(i) => Some(self.views[i].clone()),
            None => None,
        }
    }

    /// Move one row of one view: the row at `from` lands at `to`. Indices out
    /// of range, or an unknown view, move nothing.
    pub fn move_row_order(&mut self, view_id: &str, from: u32, to: u32)
        ensures
            final(self).model().len() == old(self).model().len(),
            forall|v: int|
                0 <= v < old(self).model().len() && find_view(old(self).model(), view_id@)
                    != Some(v) ==> final(self).model()[v] == old(self).model()[v],
            find_view(old(self).model(), view_id@) matches Some(v) ==> final(self).model()[v]
                == (DatabaseViewModel {
                row_orders: spec_move_row(old(self).model()[v].row_orders, from as int, to as int),
                ..old(self).model()[v]
            }),
    {
        let ghost pre = self.model();
        match self.find_index(view_id) {
            Some(i) => {
                let mut view = self.views.remove(i);
                let ghost vpre = view@;
                if (from as usize) < view.row_orders.len() && (to as usize)
                    < view.row_orders.len() {
                    let row = view.row_orders[from as usize];
                    view.row_orders.remove(from as usize);
                    view.row_orders.insert(to as usize, row);
                }
                proof {
                    assert(view@.row_orders =~= spec_move_row(vpre.row_orders, from as int, to as int));
                }
                self.views.insert(i, view);
                proof {
                    assert(self.views.deep_view() =~= pre.update(
                        i as int,
                        DatabaseViewModel {
                            row_orders: spec_move_row(pre[i as int].row_orders, from as int, to as int),
                            ..pre[i as int]
                        },
                    ));
                }
            },
            None => {},
        }
    }
}

/// A replicated database: its shared rows and its views over them.
pub struct Database {
    pub views: Views,
    pub database_id: String,
    pub rows: Vec<RowOrder>,
    pub block_id: i64,
}

impl Database {
    /// The shared rows, in canonical order.
    pub open spec fn rows_model(self) -> Seq<RowOrder> {
        self.rows@
    }

    /// The database's identity.
    pub open spec fn id_view(self) -> Seq<char> {
        self.database_id@
    }

    /// The block new rows are assigned to.
    pub open spec fn spec_block_id(self) -> i64 {
        self.block_id
    }

    /// A fresh database: no views and no rows yet.
    pub fn new(database_id: String, block_id: i64) -> (r: Self)
        ensures
            r.id_view() == database_id@,
            r.spec_block_id() == block_id,
            r.rows_model().len() == 0,
            r.views.model().len() == 0,
    {
        let r = Database {
            views: Views { views: Vec::new() },
            database_id,
            rows: Vec::new(),
            block_id,
        };
        proof {
            assert(r.views.views.deep_view() =~~= Seq::<DatabaseViewModel>::empty());
        }
        r
    }

    /// Add a view: it starts out ordering exactly the rows the database
    /// already holds, in canonical order.
    pub fn create_view(&mut self, params: CreateViewParams)
        ensures
            final(self).rows_model() == old(self).rows_model(),
            final(self).id_view() == old(self).id_view(),
            final(self).spec_block_id() == old(self).spec_block_id(),
            final(self).views.model() == old(self).views.model().push(
                DatabaseViewModel {
                    id: params.view_id@,
                    name: params.name@,
                    layout: params.layout,
                    row_orders: old(self).rows_model(),
                    field_orders: Seq::empty(),
                },
            ),
    {
        let ghost pre = self.views.model();
        let row_orders = self.rows.clone();
        proof {
            assert(row_orders@ =~= self.rows@);
        }
        let view = DatabaseView {
            id: params.view_id,
            name: params.name,
            layout: params.layout,
            row_orders,
            field_orders: Vec::new(),
        };
        let ghost vm = view@;
        self.views.views.push(view);
        proof {
            assert(vm.field_orders =~~= Seq::<Seq<char>>::empty());
            assert(self.views.views.deep_view() =~= pre.push(vm));
        }
    }

    /// Append a row: it lands at the back of the shared rows and of every
    /// view's order, assigned to the database's block.
    pub fn push_row(&mut self, params: CreateRowParams) -> (r: Option<RowOrder>)
        ensures
            ({
                let row = RowOrder {
                    id: params.id,
                    block_id: old(self).spec_block_id(),
                    height: params.height,
                };
                &&& r == Some(row)
                &&& final(self).rows_model() == old(self).rows_model().push(row)
                &&& final(self).views.model().len() == old(self).views.model().len()
                &&& forall|v: int|
                    0 <= v < old(self).views.model().len() ==> final(self).views.model()[v]
                        == (DatabaseViewModel {
                        row_orders: (#[trigger] old(self).views.model()[v]).row_orders.push(row),
                        ..old(self).views.model()[v]
                    })
                &&& final(self).id_view() == old(self).id_view()
                &&& final(self).spec_block_id() == old(self).spec_block_id()
            }),
    {
        let row = RowOrder { id: params.id, block_id: self.block_id, height: params.height };
        self.rows.push(row);
        let ghost pre = self.views.model();
        let n = self.views.views.len();
        let mut i: usize = 0;
        while i < n
            invariant
                0 <= i <= n,
                n == self.views.views.len(),
                pre.len() == n,
                self.database_id == old(self).database_id,
                self.block_id == old(self).block_id,
                self.rows@ == old(self).rows@.push(row),
                forall|v: int|
                    0 <= v < i ==> #[trigger] self.views.model()[v] == (DatabaseViewModel {
                        row_orders: pre[v].row_orders.push(row),
                        ..pre[v]
                    }),
                forall|v: int| i <= v < n ==> #[trigger] self.views.model()[v] == pre[v],
            decreases n - i,
        {
            let ghost cur = self.views.model();
            let mut view = self.views.views.remove(i);
            view.row_orders.push(row);
            self.views.views.insert(i, view);
            proof {
                let prior = cur[i as int];
                assert(self.views.views.deep_view() =~= cur.update(
                    i as int,
                    DatabaseViewModel { row_orders: prior.row_orders.push(row), ..prior },
                ));
            }
            i = i + 1;
        }
        Some(row)
    }

    /// Insert a row: without a predecessor it lands at the front of every
    /// view's order and of the shared rows; with one, right after it wherever
    /// that view holds it, or at the back where it does not.
    pub fn create_row(&mut self, params: CreateRowParams) -> (r: Option<RowOrder>)
        ensures
            ({
                let row = RowOrder {
                    id: params.id,
                    block_id: old(self).spec_block_id(),
                    height: params.height,
                };
                &&& r == Some(row)
                &&& final(self).rows_model() == spec_insert_row(
                    old(self).rows_model(),
                    row,
                    params.prev_row_id,
                )
                &&& final(self).views.model().len() == old(self).views.model().len()
                &&& forall|v: int|
                    0 <= v < old(self).views.model().len() ==> final(self).views.model()[v]
                        == (DatabaseViewModel {
                        row_orders: spec_insert_row(
                            (#[trigger] old(self).views.model()[v]).row_orders,
                            row,
                            params.prev_row_id,
                        ),
                        ..old(self).views.model()[v]
                    })
                &&& final(self).id_view() == old(self).id_view()
                &&& final(self).spec_block_id() == old(self).spec_block_id()
            }),
    {
        let row = RowOrder { id: params.id, block_id: self.block_id, height: params.height };
        insert_row_in_order(&mut self.rows, row, params.prev_row_id);
        let ghost pre = self.views.model();
        let n = self.views.views.len();
        let mut i: usize = 0;
        while i < n
            invariant
                0 <= i <= n,
                n == self.views.views.len(),
                pre.len() == n,
                self.database_id == old(self).database_id,
                self.block_id == old(self).block_id,
                self.rows@ == spec_insert_row(old(self).rows@, row, params.prev_row_id),
                forall|v: int|
                    0 <= v < i ==> #[trigger] self.views.model()[v] == (DatabaseViewModel {
                        row_orders: spec_insert_row(pre[v].row_orders, row, params.prev_row_id),
                        ..pre[v]
                    }),
                forall|v: int| i <= v < n ==> #[trigger] self.views.model()[v] == pre[v],
            decreases n - i,
        {
            let ghost cur = self.views.model();
            let mut view = self.views.views.remove(i);
            insert_row_in_order(&mut view.row_orders, row, params.prev_row_id);
            self.views.views.insert(i, view);
            proof {
                assert(self.views.views.deep_view() =~= cur.update(
                    i as int,
                    DatabaseViewModel {
                        row_orders: spec_insert_row(
                            cur[i as int].row_orders,
                            row,
                            params.prev_row_id,
                        ),
                        ..cur[i as int]
                    },
                ));
            }
            i = i + 1;
        }
        Some(row)
    }

    /// Remove a row: its first reference leaves the shared rows and every
    /// view's order; a view not holding it keeps its order.
    pub fn remove_row(&mut self, row_id: RowId, block_id: i64)
        ensures
            final(self).rows_model() == spec_remove_row(old(self).rows_model(), row_id),
            final(self).views.model().len() == old(self).views.model().len(),
            forall|v: int|
                0 <= v < old(self).views.model().len() ==> final(self).views.model()[v]
                    == (DatabaseViewModel {
                    row_orders: spec_remove_row(
                        (#[trigger] old(self).views.model()[v]).row_orders,
                        row_id,
                    ),
                    ..old(self).views.model()[v]
                }),
            final(self).id_view() == old(self).id_view(),
            final(self).spec_block_id() == old(self).spec_block_id(),
    {
        let _ = block_id;
        match find_row_index(&self.rows, row_id) {
            Some(i) => {
                self.rows.remove(i);
            },
            None => {},
        }
        let ghost pre = self.views.model();
        let n = self.views.views.len();
        let mut i: usize = 0;
        while i < n
            invariant
                0 <= i <= n,
                n == self.views.views.len(),
                pre.len() == n,
                self.database_id == old(self).database_id,
                self.block_id == old(self).block_id,
                self.rows@ == spec_remove_row(old(self).rows@, row_id),
                forall|v: int|
                    0 <= v < i ==> #[trigger] self.views.model()[v] == (DatabaseViewModel {
                        row_orders: spec_remove_row(pre[v].row_orders, row_id),
                        ..pre[v]
                    }),
                forall|v: int| i <= v < n ==> #[trigger] self.views.model()[v] == pre[v],
            decreases n - i,
        {
            let ghost cur = self.views.model();
            let mut view = self.views.views.remove(i);
            match find_row_index(&view.row_orders, row_id) {
                Some(j) => {
                    view.row_orders.remove(j);
                },
                None => {},
            }
            self.views.views.insert(i, view);
            proof {
                assert(self.views.views.deep_view() =~= cur.update(
                    i as int,
                    DatabaseViewModel {
                        row_orders: spec_remove_row(cur[i as int].row_orders, row_id),
                        ..cur[i as int]
                    },
                ));
            }
            i = i + 1;
        }
    }

    /// The rows one view materializes, in that view's order; an unknown view
    /// materializes nothing.
    pub fn get_rows_for_view(&self, view_id: &str) -> (r: Vec<Row>)
        ensures
            find_view(self.views.model(), view_id@) matches Some(v) ==> r@ == Seq::new(
                self.views.model()[v].row_orders.len(),
                |j: int|
                    Row {
                        id: self.views.model()[v].row_orders[j].id,
                        height: self.views.model()[v].row_orders[j].height,
                    },
            ),
            find_view(self.views.model(), view_id@) is None ==> r@ == Seq::<Row>::empty(),
    {
        match self.views.find_index(view_id) {
            Some(i) => {
                proof {
                    assert(self.views.model()[i as int] == self.views.views@[i as int]@);
                }
                let ghost orders = self.views.model()[i as int].row_orders;
                let view = &self.views.views[i];
                let mut r: Vec<Row> = Vec::new();
                let mut j: usize = 0;
                while j < view.row_orders.len()
                    invariant
                        0 <= j <= view.row_orders.len(),
                        orders == view.row_orders@,
                        r@ =~= Seq::new(
                            j as nat,
                            |k: int| Row { id: orders[k].id, height: orders[k].height },
                        ),
                    decreases view.row_orders.len() - j,
                {
                    r.push(Row { id: view.row_orders[j].id, height: view.row_orders[j].height });
                    proof {
                        assert(r@ =~= Seq::new(
                            (j + 1) as nat,
                            |k: int| Row { id: orders[k].id, height: orders[k].height },
                        ));
                    }
                    j = j + 1;
                }
                r
            },
            None => Vec::new(),
        }
    }
}

} // verus!
