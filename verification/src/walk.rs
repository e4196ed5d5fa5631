//! What a search of the file yields: the walk through the B-trees, stated
//! over the bytes of the file.
//!
//! A walk starts at a page and goes down through the children that the page
//! names. It takes a number of levels with it and goes no deeper: a page
//! below the last level yields no rows, like a page that cannot be read.

use vstd::prelude::*;
use crate::cells::CellView;
use crate::conditions::DoubleLiterals;
use crate::db_header::u16_at;
use crate::ddl::create_of;
use crate::error::Error;
use crate::pages::{btree_header, PageKind, PageView};
use crate::schemas::SchemaView;
use crate::sql::ConditionView;
use crate::tables::TableView;
use crate::text::{order_of, Order};
use crate::value::ValueView;

verus! {

/// The page of the given number in a file. Pages are numbered from 1 and
/// have the size that the database header gives. The B-tree header of page 1
/// stands behind the 100 bytes of the database header.
pub open spec fn page_of(file: Seq<u8>, pgno: u64) -> Result<PageView, Error> {
    let size = u16_at(file, 16) as nat;
    if pgno == 0 || pgno * size > file.len() {
        Err(Error::InvalidPageNumber(pgno))
    } else if pgno == 1 && size < 100 {
        Err(Error::MalformedBtreeHeader)
    } else {
        let data = file.subrange((pgno - 1) * size, pgno * size);
        let header = if pgno == 1 {
            btree_header(data.skip(100))
        } else {
            btree_header(data)
        };
        match header {
            Err(e) => Err(e),
            Ok(header) => Ok(PageView { page_id: pgno, data, header }),
        }
    }
}

/// What a search is after.
pub struct SearchView {
    /// The page at which the search starts.
    pub pgno: u64,
    /// The text that the first value of a row must have.
    pub key: Option<Seq<char>>,
    /// The row ids that are wanted from a table.
    pub indeces: Option<Seq<u64>>,
    /// The catalogue entry of the table that the rows come from.
    pub schema: SchemaView,
    /// The conditions that a row must meet.
    pub conds: Seq<ConditionView>,
    /// The literal values of each condition read as doubles.
    pub doubles: Seq<DoubleLiterals>,
}

impl SearchView {
    /// The same search at another page.
    pub open spec fn at(self, pgno: u64) -> SearchView {
        SearchView { pgno, ..self }
    }

    /// The search for the rows of the given ids, from the root of the table.
    pub open spec fn rejoin(self, ids: Seq<u64>) -> SearchView {
        SearchView { pgno: self.schema.rootpage, key: None, indeces: Some(ids), ..self }
    }

    /// The literal values of the `i`-th condition read as doubles; none where
    /// the search holds none for it.
    pub open spec fn doubles_at(self, i: int) -> DoubleLiterals {
        if 0 <= i < self.doubles.len() {
            self.doubles[i]
        } else {
            DoubleLiterals { first: None, second: None }
        }
    }

    /// Whether a row meets every condition of the search. Where there are
    /// conditions, the table's declaration must be readable: the conditions
    /// find their columns in it.
    pub open spec fn all_hold(self, row: Seq<ValueView>) -> bool {
        self.conds.len() == 0 || match create_of(self.schema.sql) {
            None => false,
            Some(table) => forall|i: int|
                0 <= i < self.conds.len() ==> (#[trigger] self.conds[i]).eval(
                    row,
                    table.columns,
                    self.doubles_at(i),
                ),
        }
    }

    /// Whether the search keeps the row of a leaf cell. A table's row must be
    /// among the wanted row ids, where the search has any. Then the key
    /// decides, where the search has one; else the conditions do.
    pub open spec fn keeps(self, cell: CellView, row: Seq<ValueView>) -> bool {
        let wanted = match (self.indeces, cell) {
            (Some(ids), CellView::TableLeaf { row_id, .. }) => ids.contains(row_id),
            _ => true,
        };
        wanted && match self.key {
            Some(key) => row.len() > 0 && row[0].text() == key,
            None => self.all_hold(row),
        }
    }
}

/// The rows that a search keeps of the cells of a leaf page from the `i`-th
/// on, in the order of the cells. A cell whose row cannot be read gives none.
pub open spec fn leaf_rows_from(search: SearchView, cells: Seq<CellView>, i: nat) -> Seq<
    Seq<ValueView>,
>
    decreases cells.len() - i,
{
    if i >= cells.len() {
        Seq::empty()
    } else {
        let rest = leaf_rows_from(search, cells, i + 1);
        match cells[i as int].row() {
            Some(row) => if search.keeps(cells[i as int], row) {
                seq![row] + rest
            } else {
                rest
            },
            None => rest,
        }
    }
}

/// The row ids that index entries point to: the second value of each entry
/// that has one, as a number.
pub open spec fn row_ids(entries: Seq<Seq<ValueView>>) -> Seq<u64>
    decreases entries.len(),
{
    if entries.len() == 0 {
        Seq::empty()
    } else {
        let front = row_ids(entries.drop_last());
        if entries.last().len() >= 2 {
            front.push(entries.last()[1].as_u64())
        } else {
            front
        }
    }
}

/// Whether `a` comes before `b` or is `b`.
pub open spec fn at_most(a: Seq<char>, b: Seq<char>) -> bool {
    order_of(a, b) != Order::Greater
}

/// The rows of a search that starts at its page and goes `depth` levels deep.
pub open spec fn walk(file: Seq<u8>, search: SearchView, depth: nat) -> Seq<Seq<ValueView>>
    decreases depth, 0nat, 0nat,
{
    if depth == 0 {
        Seq::empty()
    } else {
        match page_of(file, search.pgno) {
            Err(_) => Seq::empty(),
            Ok(page) => match page.header.kind {
                PageKind::TableInterior => table_interior_from(
                    file,
                    search,
                    (depth - 1) as nat,
                    page,
                    0,
                    Seq::empty(),
                ),
                PageKind::IndexInterior => match search.key {
                    Some(key) => if search.schema.rootpage != 0 {
                        index_interior_from(
                            file,
                            search,
                            (depth - 1) as nat,
                            key,
                            page.cells(),
                            0,
                            None,
                            Seq::empty(),
                            Seq::empty(),
                        )
                    } else {
                        Seq::empty()
                    },
                    None => Seq::empty(),
                },
                _ => leaf_rows_from(search, page.cells(), 0),
            },
        }
    }
}

/// The rows under an interior page of a table, from its `i`-th cell on,
/// behind the rows `acc` of the cells before. Each cell's child is searched
/// in turn, and the rightmost child last. Where the search wants row ids and
/// a cell carries one of them, the rows of that cell's child are the result.
pub open spec fn table_interior_from(
    file: Seq<u8>,
    search: SearchView,
    below: nat,
    page: PageView,
    i: nat,
    acc: Seq<Seq<ValueView>>,
) -> Seq<Seq<ValueView>>
    decreases below, 1nat, page.cells().len() - i,
{
    let cells = page.cells();
    if i >= cells.len() {
        match page.header.rightmost_pointer {
            Some(p) => if p != 0 {
                acc + walk(file, search.at(p as u64), below)
            } else {
                acc
            },
            None => acc,
        }
    } else {
        match cells[i as int].next_page() {
            None => table_interior_from(file, search, below, page, i + 1, acc),
            Some(p) => {
                let under = walk(file, search.at(p), below);
                let wanted = match (search.indeces, cells[i as int]) {
                    (Some(ids), CellView::TableInterior { row_id, .. }) => ids.contains(row_id),
                    _ => false,
                };
                if wanted {
                    under
                } else {
                    table_interior_from(file, search, below, page, i + 1, acc + under)
                }
            },
        }
    }
}

/// What a walk over an interior page of an index ends with: the rows found
/// so far and, where row ids were collected, the rows of the table that have
/// them.
pub open spec fn rejoined(
    file: Seq<u8>,
    search: SearchView,
    below: nat,
    ids: Seq<u64>,
    rows: Seq<Seq<ValueView>>,
) -> Seq<Seq<ValueView>>
    decreases below, 0nat, 1nat,
{
    if ids.len() > 0 {
        rows + walk(file, search.rejoin(ids), below)
    } else {
        rows
    }
}

/// The rows under an interior page of an index, from its `i`-th cell on.
/// `left` is the key of the cell before, `ids` the row ids collected and
/// `rows` the rows found so far.
///
/// Before the first key, the child is searched where the key that is looked
/// for does not come after the cell's key, and what it yields is added to
/// the rows. Later, the child is searched where that key lies between the
/// key before and the cell's key; the entries it yields, and the cell's own
/// where its key is the one looked for, give row ids. The walk ends behind a
/// cell whose left key is the one looked for.
pub open spec fn index_interior_from(
    file: Seq<u8>,
    search: SearchView,
    below: nat,
    key: Seq<char>,
    cells: Seq<CellView>,
    i: nat,
    left: Option<Seq<char>>,
    ids: Seq<u64>,
    rows: Seq<Seq<ValueView>>,
) -> Seq<Seq<ValueView>>
    decreases below, 1nat, cells.len() - i,
{
    if i >= cells.len() {
        rejoined(file, search, below, ids, rows)
    } else {
        let next = cells[i as int].next_page();
        match cells[i as int].row() {
            None => index_interior_from(file, search, below, key, cells, i + 1, left, ids, rows),
            Some(row) => if row.len() == 0 {
                index_interior_from(file, search, below, key, cells, i + 1, left, ids, rows)
            } else {
                let row_key = row[0].text();
                match left {
                    None => if at_most(key, row_key) {
                        match next {
                            None => index_interior_from(
                                file,
                                search,
                                below,
                                key,
                                cells,
                                i + 1,
                                left,
                                ids,
                                rows,
                            ),
                            Some(p) => index_interior_from(
                                file,
                                search,
                                below,
                                key,
                                cells,
                                i + 1,
                                Some(row_key),
                                ids,
                                rows + walk(file, search.at(p), below),
                            ),
                        }
                    } else {
                        index_interior_from(
                            file,
                            search,
                            below,
                            key,
                            cells,
                            i + 1,
                            Some(row_key),
                            ids,
                            rows,
                        )
                    },
                    Some(left_key) => {
                        let between = at_most(left_key, key) && at_most(key, row_key);
                        if between && next.is_none() {
                            index_interior_from(
                                file,
                                search,
                                below,
                                key,
                                cells,
                                i + 1,
                                left,
                                ids,
                                rows,
                            )
                        } else {
                            let found = if between {
                                let under = walk(file, search.at(next.unwrap()), below);
                                ids + row_ids(
                                    if row_key == key {
                                        under.push(row)
                                    } else {
                                        under
                                    },
                                )
                            } else {
                                ids
                            };
                            if left_key == key {
                                rejoined(file, search, below, found, rows)
                            } else {
                                index_interior_from(
                                    file,
                                    search,
                                    below,
                                    key,
                                    cells,
                                    i + 1,
                                    Some(row_key),
                                    found,
                                    rows,
                                )
                            }
                        }
                    },
                }
            },
        }
    }
}

/// A search without a key and without wanted row ids keeps a row exactly
/// when the row meets every one of its conditions.
pub proof fn lemma_every_condition(
    search: SearchView,
    cell: CellView,
    row: Seq<ValueView>,
    table: TableView,
)
    requires
        search.key is None,
        search.indeces is None,
        create_of(search.schema.sql) == Some(table),
    ensures
        search.keeps(cell, row) <==> forall|i: int|
            0 <= i < search.conds.len() ==> (#[trigger] search.conds[i]).eval(
                row,
                table.columns,
                search.doubles_at(i),
            ),
{
}

/// Each row that a search yields from a leaf page is the row of one of the
/// page's cells, and one that the search keeps: where the search wants row
/// ids, a table's row has one of them, and where it has no key, the row
/// meets every condition.
pub proof fn lemma_leaf_rows_kept(search: SearchView, cells: Seq<CellView>, i: nat, k: int)
    requires
        0 <= k < leaf_rows_from(search, cells, i).len(),
    ensures
        exists|j: int|
            i <= j < cells.len() && (#[trigger] cells[j]).row() == Some(
                leaf_rows_from(search, cells, i)[k],
            ) && search.keeps(cells[j], leaf_rows_from(search, cells, i)[k]),
    decreases cells.len() - i,
{
    if i < cells.len() {
        let rest = leaf_rows_from(search, cells, i + 1);
        let kept = match cells[i as int].row() {
            Some(row) => search.keeps(cells[i as int], row),
            None => false,
        };
        if kept && k == 0 {
            assert(cells[i as int].row() == Some(leaf_rows_from(search, cells, i)[k]));
        } else {
            let below = if kept {
                k - 1
            } else {
                k
            };
            assert(leaf_rows_from(search, cells, i)[k] == rest[below]);
            lemma_leaf_rows_kept(search, cells, i + 1, below);
            let j = choose|j: int|
                i + 1 <= j < cells.len() && (#[trigger] cells[j]).row() == Some(rest[below])
                    && search.keeps(cells[j], rest[below]);
            assert(cells[j].row() == Some(leaf_rows_from(search, cells, i)[k]));
        }
    }
}

/// A search without a key, without wanted row ids and without conditions
/// keeps the row of every cell of a leaf page that has one.
pub proof fn lemma_leaf_rows_all(search: SearchView, cells: Seq<CellView>, i: nat)
    requires
        search.key is None,
        search.indeces is None,
        search.conds.len() == 0,
        i <= cells.len(),
        forall|j: int| 0 <= j < cells.len() ==> (#[trigger] cells[j]).row() is Some,
    ensures
        leaf_rows_from(search, cells, i).len() == cells.len() - i,
        forall|j: int|
            0 <= j < cells.len() - i ==> #[trigger] leaf_rows_from(search, cells, i)[j] == cells[i
                + j].row().unwrap(),
    decreases cells.len() - i,
{
    if i < cells.len() {
        lemma_leaf_rows_all(search, cells, i + 1);
        let rest = leaf_rows_from(search, cells, i + 1);
        let row = cells[i as int].row().unwrap();
        assert(search.keeps(cells[i as int], row));
        assert forall|j: int| 0 <= j < cells.len() - i implies #[trigger] leaf_rows_from(
            search,
            cells,
            i,
        )[j] == cells[i + j].row().unwrap() by {
            if j > 0 {
                assert(leaf_rows_from(search, cells, i)[j] == rest[j - 1]);
            }
        }
    }
}

} // verus!
