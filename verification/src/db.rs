//! The database: a file held in memory, its pages and the rows of a search.

use vstd::prelude::*;
use crate::cells::{Cell, CellView};
use crate::conditions::DoubleLiterals;
use crate::db_header::{u16_at, DatabaseHeader};
use crate::ddl::{create_of, create_sql};
use crate::error::Error;
use crate::pages::{cells_view, parse_btree_header, Page, PageKind, PageView};
use crate::schemas::{entries_from, schemas_view, Catalogue, Schema, SchemaView};
use crate::sql::{clone_conditions, conditions_view, Condition};
use crate::tables::Table;
use crate::text::{compare, same_text, text_of, Order};
use crate::value::{row_view, Value, ValueView};
use crate::walk::{
    at_most, index_interior_from, leaf_rows_from, page_of, rejoined, row_ids,
    table_interior_from, walk, SearchView,
};

verus! {

/// One row: its values in the order of the record.
pub type Row = Vec<Value>;

/// What a search is after.
#[derive(Debug)]
pub struct Search {
    /// The page at which the search starts.
    pub pgno: u64,
    /// The text that the first value of a row must have.
    pub key: Option<String>,
    /// The row ids that are wanted from a table.
    pub indeces: Option<Vec<u64>>,
    /// The catalogue entry of the table that the rows come from.
    pub schema: Schema,
    /// The conditions that a row must meet.
    pub conds: Vec<Condition>,
    /// The literal values of each condition read as doubles, in the order of
    /// the conditions. A condition without an entry has none.
    pub doubles: Vec<DoubleLiterals>,
}

impl View for Search {
    type V = SearchView;

    open spec fn view(&self) -> SearchView {
        SearchView {
            pgno: self.pgno,
            key: match self.key {
                Some(key) => Some(key@),
                None => None,
            },
            indeces: match self.indeces {
                Some(ids) => Some(ids@),
                None => None,
            },
            schema: self.schema@,
            conds: conditions_view(self.conds@),
            doubles: self.doubles@,
        }
    }
}

impl Search {
    /// A search that starts at the given page.
    pub fn new(
        pgno: u64,
        key: Option<String>,
        indeces: Option<Vec<u64>>,
        schema: Schema,
        conds: Vec<Condition>,
        doubles: Vec<DoubleLiterals>,
    ) -> (r: Search)
        ensures
            r.pgno == pgno,
            r.key == key,
            r.indeces == indeces,
            r.schema == schema,
            r.conds == conds,
            r.doubles == doubles,
    {
        Search { pgno, key, indeces, schema, conds, doubles }
    }

    /// The same search at another page.
    pub fn next_page(&self, pgno: u64) -> (r: Search)
        ensures
            r@ == self@.at(pgno),
    {
        Search {
            pgno,
            key: match &self.key {
                Some(key) => Some(key.clone()),
                None => None,
            },
            indeces: match &self.indeces {
                Some(ids) => Some(vstd::slice::slice_to_vec(ids.as_slice())),
                None => None,
            },
            schema: self.schema.clone(),
            conds: clone_conditions(&self.conds),
            doubles: vstd::slice::slice_to_vec(self.doubles.as_slice()),
        }
    }
}

/// A database file in memory.
#[derive(Debug)]
pub struct Database {
    data: Vec<u8>,
    header: DatabaseHeader,
    first_page: Page,
}

impl Database {
    #[verifier::type_invariant]
    spec fn wf(&self) -> bool {
        &&& DatabaseHeader::readable(self.data@)
        &&& self.header.read_from(self.data@)
        &&& page_of(self.data@, 1) == Ok::<PageView, Error>(self.first_page@)
    }

    /// The bytes of the file.
    pub closed spec fn bytes(&self) -> Seq<u8> {
        self.data@
    }

    /// Whether a file of these bytes can be opened, and what is wrong with
    /// it where it cannot: it starts with no database header, or its first
    /// page is not whole or has no B-tree header.
    pub open spec fn opens(file: Seq<u8>) -> Result<(), Error> {
        if !DatabaseHeader::readable(file) {
            Err(Error::MalformedHeader)
        } else {
            match page_of(file, 1) {
                Err(e) => Err(e),
                Ok(_) => Ok(()),
            }
        }
    }

    /// Opens a database from the bytes of its file.
    pub fn new(data: Vec<u8>) -> (r: Result<Database, Error>)
        ensures
            match r {
                Ok(db) => Self::opens(data@) is Ok && db.bytes() == data@,
                Err(e) => Self::opens(data@) == Err::<(), Error>(e),
            },
    {
        let header = match DatabaseHeader::new(data.as_slice()) {
            Ok((_, header)) => header,
            Err(e) => {
                return Err(e);
            },
        };
        let first_page = match read_page(data.as_slice(), header.page_size, 1) {
            Ok(page) => page,
            Err(e) => {
                return Err(e);
            },
        };
        Ok(Database { data, header, first_page })
    }

    /// The header of the file.
    pub fn header(&self) -> (r: &DatabaseHeader)
        ensures
            DatabaseHeader::readable(self.bytes()),
            r.read_from(self.bytes()),
    {
        proof {
            use_type_invariant(self);
        }
        &self.header
    }

    /// The first page of the file, which holds the schema table.
    pub fn first_page(&self) -> (r: &Page)
        ensures
            page_of(self.bytes(), 1) == Ok::<PageView, Error>(r@),
    {
        proof {
            use_type_invariant(self);
        }
        &self.first_page
    }

    /// Reads the page of the given number. A page number of zero, or one
    /// behind the last whole page of the file, is invalid.
    pub fn get_page(&self, pgno: u64) -> (r: Result<Page, Error>)
        ensures
            match r {
                Ok(page) => page_of(self.bytes(), pgno) == Ok::<PageView, Error>(
                    page@,
                ),
                Err(e) => page_of(self.bytes(), pgno) == Err::<PageView, Error>(e),
            },
    {
        proof {
            use_type_invariant(self);
        }
        read_page(self.data.as_slice(), self.header.page_size, pgno)
    }
}

/// Reads the page of the given number from the bytes of a file whose pages
/// have the given size.
fn read_page(file: &[u8], page_size: u16, pgno: u64) -> (r: Result<Page, Error>)
    requires
        page_size == u16_at(file@, 16),
    ensures
        match r {
            Ok(page) => page_of(file@, pgno) == Ok::<PageView, Error>(page@),
            Err(e) => page_of(file@, pgno) == Err::<PageView, Error>(e),
        },
{
    let size: usize = page_size as usize;
    let len: usize = file.len();
    if pgno == 0 {
        return Err(Error::InvalidPageNumber(pgno));
    }
    if size == 0 {
        proof {
            assert(pgno * 0 == 0) by (nonlinear_arith);
            let data = file@.subrange(0, 0);
            assert(data.len() == 0);
        }
        return Err(Error::MalformedBtreeHeader);
    }
    let whole: usize = len / size;
    if pgno > whole as u64 {
        proof {
            assert(pgno * size > len) by (nonlinear_arith)
                requires
                    pgno >= len / size + 1,
                    size > 0,
            ;
        }
        return Err(Error::InvalidPageNumber(pgno));
    }
    let number: usize = pgno as usize;
    proof {
        assert(number * size <= len && (number - 1) * size + size == number * size)
            by (nonlinear_arith)
            requires
                1 <= number <= len / size,
                size > 0,
        ;
    }
    let start: usize = (number - 1) * size;
    let end: usize = start + size;
    if pgno == 1 && size < 100 {
        return Err(Error::MalformedBtreeHeader);
    }
    let data = vstd::slice::slice_to_vec(&file[start..end]);
    let parsed = if pgno == 1 {
        let part = &data.as_slice()[100..size];
        assert(part@ =~= data@.skip(100));
        parse_btree_header(part)
    } else {
        parse_btree_header(data.as_slice())
    };
    match parsed {
        Ok((_, header)) => Ok(Page { page_id: pgno, data, header }),
        Err(e) => Err(e),
    }
}

/// What each row of a sequence holds, in order.
pub open spec fn rows_view(rows: Seq<Row>) -> Seq<Seq<ValueView>> {
    Seq::new(rows.len(), |i: int| row_view(rows[i]@))
}

/// Whether `id` is among `ids`.
pub fn contains(ids: &Vec<u64>, id: u64) -> (r: bool)
    ensures
        r == ids@.contains(id),
{
    let mut i: usize = 0;
    while i < ids.len()
        invariant
            i <= ids@.len(),
            forall|j: int| 0 <= j < i ==> ids@[j] != id,
        decreases ids@.len() - i,
    {
        if ids[i] == id {
            return true;
        }
        i += 1;
    }
    false
}

/// Moves the rows of `more` behind those of `out`.
pub fn append_rows(out: &mut Vec<Row>, more: Vec<Row>)
    ensures
        rows_view(final(out)@) == rows_view(old(out)@) + rows_view(more@),
{
    let mut more = more;
    let ghost moved = more@;
    out.append(&mut more);
    assert(rows_view(out@) =~= rows_view(old(out)@) + rows_view(moved));
}

/// Appends the row ids that index entries point to.
pub fn collect_row_ids(entries: &Vec<Row>, out: &mut Vec<u64>)
    ensures
        final(out)@ == old(out)@ + row_ids(rows_view(entries@)),
{
    let ghost all = rows_view(entries@);
    let mut i: usize = 0;
    assert(all.take(0) =~= Seq::<Seq<ValueView>>::empty());
    assert(out@ =~= old(out)@ + row_ids(all.take(0)));
    while i < entries.len()
        invariant
            i <= entries@.len(),
            all == rows_view(entries@),
            out@ == old(out)@ + row_ids(all.take(i as int)),
        decreases entries@.len() - i,
    {
        proof {
            let next = all.take(i + 1);
            assert(next.drop_last() =~= all.take(i as int));
            assert(next.last() == row_view(entries@[i as int]@));
        }
        let ghost before = out@;
        if entries[i].len() >= 2 {
            out.push(entries[i][1].to_u64());
            assert(out@ =~= old(out)@ + row_ids(all.take(i as int)).push(
                row_view(entries@[i as int]@)[1].as_u64(),
            ));
        }
        i += 1;
    }
    assert(all.take(i as int) =~= all);
}

/// The literal values of the `i`-th condition of a search read as doubles.
fn doubles_of(search: &Search, i: usize) -> (r: DoubleLiterals)
    ensures
        r == search@.doubles_at(i as int),
{
    if i < search.doubles.len() {
        search.doubles[i]
    } else {
        DoubleLiterals { first: None, second: None }
    }
}

/// Whether a row meets every condition of a search. `table` is what the
/// declaration of the search's table reads as.
fn all_hold(search: &Search, row: &Vec<Value>, table: &Option<Table>) -> (r: bool)
    requires
        match table {
            Some(t) => create_of(search.schema.sql@) == Some(t@),
            None => create_of(search.schema.sql@).is_none(),
        },
    ensures
        r == search@.all_hold(row_view(row@)),
{
    if search.conds.len() == 0 {
        return true;
    }
    match table {
        None => false,
        Some(t) => {
            let mut i: usize = 0;
            while i < search.conds.len()
                invariant
                    i <= search.conds@.len(),
                    create_of(search.schema.sql@) == Some(t@),
                    forall|j: int|
                        0 <= j < i ==> (#[trigger] search@.conds[j]).eval(
                            row_view(row@),
                            t@.columns,
                            search@.doubles_at(j),
                        ),
                decreases search.conds@.len() - i,
            {
                let doubles = doubles_of(search, i);
                if !search.conds[i].eval(row, &t.columns, &doubles) {
                    assert(search@.conds[i as int] == search.conds@[i as int]@);
                    return false;
                }
                assert(search@.conds[i as int] == search.conds@[i as int]@);
                i += 1;
            }
            true
        },
    }
}

/// Whether a search keeps the row of a leaf cell.
fn keeps_row(search: &Search, cell: &Cell<'_>, row: &Vec<Value>, table: &Option<Table>) -> (r:
    bool)
    requires
        match table {
            Some(t) => create_of(search.schema.sql@) == Some(t@),
            None => create_of(search.schema.sql@).is_none(),
        },
    ensures
        r == search@.keeps(cell@, row_view(row@)),
{
    let wanted = match (&search.indeces, cell) {
        (Some(ids), Cell::TableLeaf { row_id, .. }) => contains(ids, *row_id),
        _ => true,
    };
    if !wanted {
        return false;
    }
    match &search.key {
        Some(key) => {
            if row.len() > 0 {
                let text = row[0].to_string();
                same_text(text.as_str(), key.as_str())
            } else {
                false
            }
        },
        None => all_hold(search, row, table),
    }
}

/// The rows that a search keeps of the cells of a leaf page.
fn leaf_rows(search: &Search, cells: &Vec<Cell<'_>>) -> (r: Vec<Row>)
    ensures
        rows_view(r@) == leaf_rows_from(search@, cells_view(cells@), 0),
{
    let table: Option<Table> = match create_sql(search.schema.sql.as_str()) {
        Ok(t) => Some(t),
        Err(_) => None,
    };
    let ghost views = cells_view(cells@);
    let mut out: Vec<Row> = Vec::new();
    let mut i: usize = 0;
    assert(rows_view(out@) + leaf_rows_from(search@, views, 0) =~= leaf_rows_from(search@, views, 0));
    while i < cells.len()
        invariant
            i <= cells@.len(),
            views == cells_view(cells@),
            match table {
                Some(t) => create_of(search.schema.sql@) == Some(t@),
                None => create_of(search.schema.sql@).is_none(),
            },
            leaf_rows_from(search@, views, 0) == rows_view(out@) + leaf_rows_from(
                search@,
                views,
                i as nat,
            ),
        decreases cells@.len() - i,
    {
        assert(views[i as int] == cells@[i as int]@);
        match cells[i].row() {
            Ok(row) => {
                if keeps_row(search, &cells[i], &row, &table) {
                    proof {
                        let rest = leaf_rows_from(search@, views, (i + 1) as nat);
                        assert(rows_view(out@.push(row)) =~= rows_view(out@).push(row_view(row@)));
                        assert(rows_view(out@.push(row)) + rest =~= rows_view(out@) + (seq![
                            row_view(row@),
                        ] + rest));
                    }
                    out.push(row);
                }
            },
            Err(_) => {},
        }
        i += 1;
    }
    assert(rows_view(out@) + Seq::<Seq<ValueView>>::empty() =~= rows_view(out@));
    out
}

/// The rows that a search keeps of a leaf page's cells do not depend on the
/// page at which the search stands.
pub proof fn lemma_leaf_rows_at(search: SearchView, pgno: u64, cells: Seq<CellView>, i: nat)
    ensures
        leaf_rows_from(search.at(pgno), cells, i) == leaf_rows_from(search, cells, i),
    decreases cells.len() - i,
{
    if i < cells.len() {
        lemma_leaf_rows_at(search, pgno, cells, i + 1);
        match cells[i as int].row() {
            Some(row) => {
                assert(search.at(pgno).all_hold(row) == search.all_hold(row));
            },
            None => {},
        }
    }
}

/// Whether `a` comes before `b` or is `b`.
fn not_after(a: &str, b: &str) -> (r: bool)
    ensures
        r == at_most(a@, b@),
{
    match compare(a, b) {
        Order::Greater => false,
        _ => true,
    }
}

/// The number of levels that a search goes down through.
pub const DEPTH_LIMIT: usize = 64;

impl Database {
    /// The rows of a search, in the order of the walk through the B-trees.
    /// A page that cannot be read yields no rows; the walk goes on with
    /// the next.
    pub fn rows(&self, search: Search) -> (r: Vec<Row>)
        ensures
            rows_view(r@) == walk(self.bytes(), search@, DEPTH_LIMIT as nat),
    {
        self.rows_within(&search, DEPTH_LIMIT)
    }

    /// The rows of a search that goes no more than `depth` levels deep.
    pub fn rows_within(&self, search: &Search, depth: usize) -> (r: Vec<Row>)
        ensures
            rows_view(r@) == walk(self.bytes(), search@, depth as nat),
    {
        assert(search@.at(search.pgno) == search@);
        self.descend(search, search.pgno, depth)
    }

    /// Ends the walk over an interior page of an index: fetches the rows of
    /// the collected row ids from the table and puts them behind the rows
    /// found so far.
    fn rejoin(
        &self,
        search: &Search,
        pgno: u64,
        ids: Vec<u64>,
        rows: Vec<Row>,
        below: usize,
    ) -> (r: Vec<Row>)
        ensures
            rows_view(r@) == rejoined(
                self.bytes(),
                search@.at(pgno),
                below as nat,
                ids@,
                rows_view(rows@),
            ),
        decreases below, 1nat,
    {
        let mut rows = rows;
        if ids.len() > 0 {
            let again = Search {
                pgno: search.schema.rootpage,
                key: None,
                indeces: Some(ids),
                schema: search.schema.clone(),
                conds: clone_conditions(&search.conds),
                doubles: vstd::slice::slice_to_vec(search.doubles.as_slice()),
            };
            assert(again@ == search@.at(pgno).rejoin(ids@));
            assert(again@.at(again.pgno) == again@);
            let found = self.descend(&again, again.pgno, below);
            append_rows(&mut rows, found);
        }
        rows
    }

    /// The rows of a search at the given page.
    fn descend(&self, search: &Search, pgno: u64, depth: usize) -> (r: Vec<Row>)
        ensures
            rows_view(r@) == walk(self.bytes(), search@.at(pgno), depth as nat),
        decreases depth, 0nat,
    {
        let ghost file = self.bytes();
        let ghost here = search@.at(pgno);
        let mut rows: Vec<Row> = Vec::new();
        assert(rows_view(rows@) =~= Seq::<Seq<ValueView>>::empty());
        if depth == 0 {
            return rows;
        }
        let page = match self.get_page(pgno) {
            Ok(page) => page,
            Err(_) => {
                return rows;
            },
        };
        let below: usize = depth - 1;
        let cells = page.cells().collect();
        match page.header.kind {
            PageKind::TableInterior => {
                let mut i: usize = 0;
                while i < cells.len()
                    invariant
                        i <= cells@.len(),
                        file == self.bytes(),
                        here == search@.at(pgno),
                        below + 1 == depth,
                        cells_view(cells@) == page@.cells(),
                        walk(file, here, depth as nat) == table_interior_from(
                            file,
                            here,
                            below as nat,
                            page@,
                            i as nat,
                            rows_view(rows@),
                        ),
                    decreases cells@.len() - i,
                {
                    assert(cells_view(cells@)[i as int] == cells@[i as int]@);
                    match cells[i].next_page() {
                        None => {},
                        Some(p) => {
                            assert(here.at(p) == search@.at(p));
                            let under = self.descend(search, p, below);
                            let wanted = match (&search.indeces, &cells[i]) {
                                (Some(ids), Cell::TableInterior { row_id, .. }) => contains(
                                    ids,
                                    *row_id,
                                ),
                                _ => false,
                            };
                            if wanted {
                                return under;
                            }
                            append_rows(&mut rows, under);
                        },
                    }
                    i += 1;
                }
                match page.header.rightmost_pointer {
                    Some(p) => {
                        if p != 0 {
                            assert(here.at(p as u64) == search@.at(p as u64));
                            let under = self.descend(search, p as u64, below);
                            append_rows(&mut rows, under);
                        }
                    },
                    None => {},
                }
                rows
            },
            PageKind::IndexInterior => {
                let key: &String = match &search.key {
                    Some(key) => key,
                    None => {
                        return rows;
                    },
                };
                if search.schema.rootpage == 0 {
                    return rows;
                }
                let mut ids: Vec<u64> = Vec::new();
                let mut left: Option<String> = None;
                let mut i: usize = 0;
                while i < cells.len()
                    invariant
                        i <= cells@.len(),
                        file == self.bytes(),
                        here == search@.at(pgno),
                        below + 1 == depth,
                        search.key == Some(*key),
                        walk(file, here, depth as nat) == index_interior_from(
                            file,
                            here,
                            below as nat,
                            key@,
                            cells_view(cells@),
                            i as nat,
                            text_of(left),
                            ids@,
                            rows_view(rows@),
                        ),
                    decreases cells@.len() - i,
                {
                    assert(cells_view(cells@)[i as int] == cells@[i as int]@);
                    let next = cells[i].next_page();
                    match cells[i].row() {
                        Err(_) => {},
                        Ok(row) => {
                            let row_key = row[0].to_string();
                            match &left {
                                None => {
                                    if not_after(key.as_str(), row_key.as_str()) {
                                        match next {
                                            None => {},
                                            Some(p) => {
                                                assert(here.at(p) == search@.at(p));
                                                let under = self.descend(search, p, below);
                                                append_rows(&mut rows, under);
                                                left = Some(row_key);
                                            },
                                        }
                                    } else {
                                        left = Some(row_key);
                                    }
                                },
                                Some(left_key) => {
                                    let between = not_after(left_key.as_str(), key.as_str())
                                        && not_after(key.as_str(), row_key.as_str());
                                    if between && next.is_none() {
                                    } else {
                                        if between {
                                            let p = next.unwrap();
                                            assert(here.at(p) == search@.at(p));
                                            let mut under = self.descend(search, p, below);
                                            if same_text(row_key.as_str(), key.as_str()) {
                                                let ghost before = under@;
                                                under.push(row);
                                                assert(rows_view(under@) =~= rows_view(before).push(
                                                    row_view(row@),
                                                ));
                                            }
                                            collect_row_ids(&under, &mut ids);
                                        }
                                        if same_text(left_key.as_str(), key.as_str()) {
                                            return self.rejoin(search, pgno, ids, rows, below);
                                        }
                                        left = Some(row_key);
                                    }
                                },
                            }
                        },
                    }
                    i += 1;
                }
                self.rejoin(search, pgno, ids, rows, below)
            },
            _ => {
                proof {
                    lemma_leaf_rows_at(search@, pgno, cells_view(cells@), 0);
                }
                leaf_rows(search, &cells)
            },
        }
    }
}

impl Database {
    /// The entries that the schema table holds on the first page of the file.
    pub open spec fn entries(&self) -> Seq<SchemaView> {
        match page_of(self.bytes(), 1) {
            Ok(page) => entries_from(page.cells(), 0),
            Err(_) => Seq::empty(),
        }
    }

    /// The catalogue entries in the order in which the first page holds them.
    pub fn get_schemas_vec(&self) -> (r: Vec<Schema>)
        ensures
            schemas_view(r@) == self.entries(),
    {
        let page = self.first_page();
        let cells = page.cells().collect();
        let ghost views = cells_view(cells@);
        let mut out: Vec<Schema> = Vec::new();
        let mut i: usize = 0;
        assert(schemas_view(out@) + entries_from(views, 0) =~= entries_from(views, 0));
        while i < cells.len()
            invariant
                i <= cells@.len(),
                views == cells_view(cells@),
                entries_from(views, 0) == schemas_view(out@) + entries_from(views, i as nat),
            decreases cells@.len() - i,
        {
            assert(views[i as int] == cells@[i as int]@);
            match cells[i].row() {
                Ok(row) => match Schema::new(row) {
                    Ok(entry) => {
                        proof {
                            let rest = entries_from(views, (i + 1) as nat);
                            assert(schemas_view(out@.push(entry)) =~= schemas_view(out@).push(
                                entry@,
                            ));
                            assert(schemas_view(out@.push(entry)) + rest =~= schemas_view(out@) + (
                            seq![entry@] + rest));
                        }
                        out.push(entry);
                    },
                    Err(_) => {},
                },
                Err(_) => {},
            }
            i += 1;
        }
        assert(schemas_view(out@) + Seq::<SchemaView>::empty() =~= schemas_view(out@));
        out
    }

    /// The catalogue of the file.
    pub fn get_schemas(&self) -> (r: Catalogue)
        ensures
            r@ == self.entries(),
    {
        Catalogue { entries: self.get_schemas_vec() }
    }
}

} // verus!
