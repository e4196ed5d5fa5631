//! Tables as their `CREATE TABLE` statements describe them.

use vstd::prelude::*;
use vstd::relations::{sorted_by, total_ordering};
use itertools::Itertools;
use crate::sql::{texts, Select, SelectColumns, SelectColumnsView};
use crate::text::same_text;

verus! {

/// The declared type of a column. `Null` stands for a type that is not known here.
#[derive(Debug, PartialEq, Clone, Copy, Eq)]
pub enum CellType {
    Null,
    Integer,
    Float,
    Text,
    Blob,
}

impl CellType {
    /// The type that a lower-case name stands for; `Null` for any other text.
    pub open spec fn of_text(s: Seq<char>) -> CellType {
        if s == "integer"@ {
            CellType::Integer
        } else if s == "float"@ {
            CellType::Float
        } else if s == "text"@ {
            CellType::Text
        } else if s == "blob"@ {
            CellType::Blob
        } else {
            CellType::Null
        }
    }

    /// Reads a type from its lower-case name.
    pub fn from_str(s: &str) -> (r: CellType)
        ensures
            r == Self::of_text(s@),
    {
        if same_text(s, "integer") {
            CellType::Integer
        } else if same_text(s, "float") {
            CellType::Float
        } else if same_text(s, "text") {
            CellType::Text
        } else if same_text(s, "blob") {
            CellType::Blob
        } else {
            CellType::Null
        }
    }
}

/// One column of a table.
#[derive(Debug, PartialEq, Eq)]
pub struct Column {
    /// The place of the column's value in a row.
    pub idx: usize,
    pub name: String,
    pub cell_type: CellType,
    pub nullable: bool,
    /// Whether the column is declared as the primary key.
    pub pk: bool,
}

/// What a [`Column`] holds.
pub struct ColumnView {
    pub idx: usize,
    pub name: Seq<char>,
    pub cell_type: CellType,
    pub nullable: bool,
    pub pk: bool,
}

impl View for Column {
    type V = ColumnView;

    open spec fn view(&self) -> ColumnView {
        ColumnView {
            idx: self.idx,
            name: self.name@,
            cell_type: self.cell_type,
            nullable: self.nullable,
            pk: self.pk,
        }
    }
}

impl Clone for Column {
    fn clone(&self) -> (r: Self)
        ensures
            r@ == self@,
    {
        Column {
            idx: self.idx,
            name: self.name.clone(),
            cell_type: self.cell_type,
            nullable: self.nullable,
            pk: self.pk,
        }
    }
}

/// What each column of a sequence holds, in order.
pub open spec fn columns_view(columns: Seq<Column>) -> Seq<ColumnView> {
    Seq::new(columns.len(), |i: int| columns[i]@)
}

/// The last column of `columns` that has the given name.
pub open spec fn column_named(columns: Seq<ColumnView>, name: Seq<char>) -> Option<ColumnView>
    decreases columns.len(),
{
    if columns.len() == 0 {
        None
    } else if columns.last().name == name {
        Some(columns.last())
    } else {
        column_named(columns.drop_last(), name)
    }
}

/// Finds the column of the given name. Where several columns have it, the
/// last one counts.
pub fn find_column<'a>(columns: &'a Vec<Column>, name: &str) -> (r: Option<&'a Column>)
    ensures
        match r {
            Some(column) => column_named(columns_view(columns@), name@) == Some(column@),
            None => column_named(columns_view(columns@), name@).is_none(),
        },
{
    let mut i: usize = columns.len();
    let ghost all = columns_view(columns@);
    assert(all.take(i as int) =~= all);
    while i > 0
        invariant
            i <= columns@.len(),
            all == columns_view(columns@),
            column_named(all, name@) == column_named(all.take(i as int), name@),
        decreases i,
    {
        i -= 1;
        proof {
            let part = all.take(i + 1);
            assert(part.last() == columns@[i as int]@);
            assert(part.drop_last() =~= all.take(i as int));
        }
        if same_text(columns[i].name.as_str(), name) {
            return Some(&columns[i]);
        }
    }
    None
}

/// A table: its name, its columns in the order of their declaration, and
/// the name of its primary key where one is declared.
#[derive(Debug, PartialEq, Eq)]
pub struct Table {
    pub name: String,
    pub columns: Vec<Column>,
    pub key: Option<String>,
}

/// What a [`Table`] holds.
pub struct TableView {
    pub name: Seq<char>,
    pub columns: Seq<ColumnView>,
    pub key: Option<Seq<char>>,
}

impl View for Table {
    type V = TableView;

    open spec fn view(&self) -> TableView {
        TableView {
            name: self.name@,
            columns: columns_view(self.columns@),
            key: match self.key {
                Some(key) => Some(key@),
                None => None,
            },
        }
    }
}

/// The columns from place `i` on whose name no later column has, in order.
pub open spec fn visible_from(columns: Seq<ColumnView>, i: nat) -> Seq<ColumnView>
    decreases columns.len() - i,
{
    if i >= columns.len() {
        Seq::empty()
    } else if column_named(columns.skip(i as int + 1), columns[i as int].name).is_some() {
        visible_from(columns, i + 1)
    } else {
        seq![columns[i as int]] + visible_from(columns, i + 1)
    }
}

/// The columns of the given names, in the order of the names. A name that no
/// column has gives none.
pub open spec fn named_columns(columns: Seq<ColumnView>, names: Seq<Seq<char>>) -> Seq<ColumnView>
    decreases names.len(),
{
    if names.len() == 0 {
        Seq::empty()
    } else {
        let front = named_columns(columns, names.drop_last());
        match column_named(columns, names.last()) {
            Some(column) => front.push(column),
            None => front,
        }
    }
}

/// Whether a column comes no later than another. A column is given by its
/// `idx` and its place in the table; the `idx` counts first.
pub open spec fn place_leq(a: (usize, usize), b: (usize, usize)) -> bool {
    a.0 < b.0 || (a.0 == b.0 && a.1 <= b.1)
}

/// The order of columns by `idx` and place.
pub open spec fn place_order() -> spec_fn((usize, usize), (usize, usize)) -> bool {
    |a: (usize, usize), b: (usize, usize)| place_leq(a, b)
}

/// The `idx` and the place of each column.
pub open spec fn places(columns: Seq<ColumnView>) -> Seq<(usize, usize)> {
    Seq::new(columns.len(), |k: int| (columns[k].idx, k as usize))
}

/// The columns in the order of their `idx`; columns of one `idx` in the order
/// in which they stand.
pub open spec fn arranged(columns: Seq<ColumnView>) -> Seq<ColumnView> {
    let order = places(columns).sort_by(place_order());
    Seq::new(order.len(), |k: int| columns[order[k].1 as int])
}

impl TableView {
    /// The columns that a statement asks for: the named ones in the order of
    /// the statement, all in the order of their `idx`, or none where the
    /// statement asks for a count.
    pub open spec fn select(self, columns: SelectColumnsView) -> Seq<ColumnView> {
        match columns {
            SelectColumnsView::Columns(names) => named_columns(self.columns, names),
            SelectColumnsView::Count => Seq::empty(),
            SelectColumnsView::All => arranged(visible_from(self.columns, 0)),
        }
    }
}

/// Columns are in a total order by `idx` and place.
pub proof fn lemma_place_order()
    ensures
        total_ordering(place_order()),
{
    let r = place_order();
    assert forall|x: (usize, usize)| #[trigger] r(x, x) by {}
    assert forall|x: (usize, usize), y: (usize, usize)| #[trigger] r(x, y) && #[trigger] r(
        y,
        x,
    ) implies x == y by {}
    assert forall|x: (usize, usize), y: (usize, usize), z: (usize, usize)| #[trigger] r(x, y)
        && #[trigger] r(y, z) implies r(x, z) by {}
    assert forall|x: (usize, usize), y: (usize, usize)| #[trigger] r(x, y) || #[trigger] r(
        y,
        x,
    ) by {}
}

/// Columns that stand in the order of their `idx` are arranged as they stand.
pub proof fn lemma_arranged_in_order(columns: Seq<ColumnView>)
    requires
        columns.len() <= usize::MAX,
        forall|i: int, j: int| 0 <= i < j < columns.len() ==> columns[i].idx <= columns[j].idx,
    ensures
        arranged(columns) == columns,
{
    let pairs = places(columns);
    lemma_place_order();
    pairs.lemma_sort_by_ensures(place_order());
    assert(sorted_by(pairs, place_order())) by {
        assert forall|i: int, j: int| 0 <= i < j < pairs.len() implies #[trigger] place_order()(
            pairs[i],
            pairs[j],
        ) by {
            assert(place_leq(pairs[i], pairs[j]));
        }
    }
    vstd::seq_lib::lemma_sorted_unique(pairs.sort_by(place_order()), pairs, place_order());
    assert(arranged(columns) =~= columns);
}

/// Calls `Itertools::sorted`, which sorts with `slice::sort`: the result
/// holds what was handed in, in ascending order. Pairs of numbers are
/// ordered by the first number, then by the second.
#[verifier::external_body]
fn sorted_places(pairs: Vec<(usize, usize)>) -> (r: Vec<(usize, usize)>)
    ensures
        r@.to_multiset() == pairs@.to_multiset(),
        sorted_by(r@, place_order()),
{
    pairs.into_iter().sorted().collect()
}

/// Arranges columns in the order of their `idx`.
fn arrange(columns: Vec<Column>) -> (r: Vec<Column>)
    ensures
        columns_view(r@) == arranged(columns_view(columns@)),
{
    let ghost views = columns_view(columns@);
    let mut pairs: Vec<(usize, usize)> = Vec::new();
    let mut k: usize = 0;
    while k < columns.len()
        invariant
            k <= columns@.len(),
            views == columns_view(columns@),
            pairs@ == places(views).take(k as int),
        decreases columns@.len() - k,
    {
        pairs.push((columns[k].idx, k));
        assert(pairs@ =~= places(views).take(k + 1));
        k += 1;
    }
    assert(pairs@ =~= places(views));
    let order = sorted_places(pairs);
    proof {
        lemma_place_order();
        places(views).lemma_sort_by_ensures(place_order());
        vstd::seq_lib::lemma_sorted_unique(
            order@,
            places(views).sort_by(place_order()),
            place_order(),
        );
        order@.to_multiset_ensures();
        places(views).to_multiset_ensures();
        assert(order@.len() == views.len());
        assert forall|i: int| 0 <= i < order@.len() implies (#[trigger] order@[i]).1 < views.len() by {
            assert(order@.contains(order@[i]));
            assert(places(views).contains(order@[i]));
        }
    }
    let mut out: Vec<Column> = Vec::new();
    let mut i: usize = 0;
    while i < order.len()
        invariant
            i <= order@.len(),
            views == columns_view(columns@),
            order@ == places(views).sort_by(place_order()),
            forall|j: int| 0 <= j < order@.len() ==> (#[trigger] order@[j]).1 < views.len(),
            out@.len() == i,
            forall|j: int| 0 <= j < i ==> (#[trigger] out@[j])@ == views[order@[j].1 as int],
        decreases order@.len() - i,
    {
        let place = order[i].1;
        out.push(columns[place].clone());
        i += 1;
    }
    assert(columns_view(out@) =~= arranged(views));
    out
}

impl Table {
    /// The columns that a statement asks for. A name that the table does not
    /// have is passed over. Where two columns share a name, the later one
    /// stands for both. All columns come in the order of their `idx`.
    pub fn select(&self, sel: &Select) -> (r: Vec<Column>)
        ensures
            columns_view(r@) == self@.select(sel@.columns),
    {
        let mut out: Vec<Column> = Vec::new();
        let ghost all = columns_view(self.columns@);
        match &sel.columns {
            SelectColumns::Columns(names) => {
                let ghost wanted = texts(names@);
                let mut i: usize = 0;
                assert(wanted.take(0) =~= Seq::<Seq<char>>::empty());
                assert(columns_view(out@) =~= Seq::<ColumnView>::empty());
                while i < names.len()
                    invariant
                        i <= names@.len(),
                        wanted == texts(names@),
                        all == columns_view(self.columns@),
                        columns_view(out@) == named_columns(all, wanted.take(i as int)),
                    decreases names@.len() - i,
                {
                    proof {
                        let next = wanted.take(i + 1);
                        assert(next.drop_last() =~= wanted.take(i as int));
                        assert(next.last() == names@[i as int]@);
                    }
                    match find_column(&self.columns, names[i].as_str()) {
                        Some(column) => {
                            let copy = column.clone();
                            assert(columns_view(out@.push(copy)) =~= columns_view(out@).push(copy@));
                            out.push(copy);
                        },
                        None => {},
                    }
                    i += 1;
                }
                assert(wanted.take(i as int) =~= wanted);
                out
            },
            SelectColumns::Count => {
                assert(columns_view(out@) =~= Seq::<ColumnView>::empty());
                out
            },
            SelectColumns::All => {
                let mut i: usize = 0;
                assert(columns_view(out@) + visible_from(all, 0) =~= visible_from(all, 0));
                while i < self.columns.len()
                    invariant
                        i <= self.columns@.len(),
                        all == columns_view(self.columns@),
                        visible_from(all, 0) == columns_view(out@) + visible_from(all, i as nat),
                    decreases self.columns@.len() - i,
                {
                    if !has_name_after(&self.columns, i) {
                        let copy = self.columns[i].clone();
                        proof {
                            assert(columns_view(out@.push(copy)) =~= columns_view(out@).push(copy@));
                            assert(columns_view(out@.push(copy)) + visible_from(all, (i + 1) as nat)
                                =~= columns_view(out@) + (seq![copy@] + visible_from(
                                all,
                                (i + 1) as nat,
                            )));
                        }
                        out.push(copy);
                    }
                    i += 1;
                }
                assert(columns_view(out@) + Seq::<ColumnView>::empty() =~= columns_view(out@));
                arrange(out)
            },
        }
    }
}

/// Whether a column behind place `i` has the name of the column at `i`.
fn has_name_after(columns: &Vec<Column>, i: usize) -> (r: bool)
    requires
        i < columns@.len(),
    ensures
        r == column_named(columns_view(columns@).skip(i + 1), columns@[i as int]@.name).is_some(),
{
    let ghost all = columns_view(columns@);
    let ghost tail = all.skip(i + 1);
    let ghost name = columns@[i as int]@.name;
    let mut j: usize = columns.len();
    assert(tail.take(tail.len() as int) =~= tail);
    while j > i + 1
        invariant
            i + 1 <= j <= columns@.len(),
            all == columns_view(columns@),
            tail == all.skip(i + 1),
            name == columns@[i as int]@.name,
            column_named(tail, name) == column_named(tail.take(j - i - 1), name),
        decreases j,
    {
        j -= 1;
        proof {
            let part = tail.take(j - i);
            assert(part.last() == columns@[j as int]@);
            assert(part.drop_last() =~= tail.take(j - i - 1));
        }
        if same_text(columns[j].name.as_str(), columns[i].name.as_str()) {
            return true;
        }
    }
    assert(tail.take(0).len() == 0);
    false
}

} // verus!
