//! Running a `SELECT` statement: finding the table, choosing an index and
//! searching the file.

use vstd::prelude::*;
use vstd::utf8::encode_utf8;
use crate::conditions::DoubleLiterals;
use crate::db::{rows_view, Database, Row, Search, DEPTH_LIMIT};
use crate::ddl::{create_idx_of, create_idx_sql, create_of, create_sql};
use crate::error::{Error, ErrorView};
use crate::schemas::{entry_named, schemas_view, Catalogue, Schema, SchemaType, SchemaView};
use crate::sql::{
    conditions_view, Condition, ConditionView, Select, SelectColumns, SelectColumnsView,
    SelectView,
};
use crate::tables::{
    column_named, columns_view, find_column, Column, ColumnView, Table, TableView,
};
use crate::text::same_text;
use crate::value::{Value, ValueView};
use crate::pages::PageKind;
use crate::value::row_view;
use crate::walk::{lemma_leaf_rows_all, page_of, walk, SearchView};

verus! {

/// Whether an entry is an index on the given column of the given table: its
/// statement must read as an index on that one column.
pub open spec fn is_index_on(entry: SchemaView, target: Seq<char>, column: Seq<char>) -> bool {
    &&& entry.stype == SchemaType::Index
    &&& entry.table_name == target
    &&& create_idx_of(entry.sql) matches Some((_, indexed))
    &&& indexed == column
}

/// The root page of the first entry from the `i`-th on that is an index on
/// the given column of the given table.
pub open spec fn index_root(entries: Seq<SchemaView>, target: Seq<char>, column: Seq<char>, i: nat)
    -> Option<u64>
    decreases entries.len() - i,
{
    if i >= entries.len() {
        None
    } else if is_index_on(entries[i as int], target, column) {
        Some(entries[i as int].rootpage)
    } else {
        index_root(entries, target, column, i + 1)
    }
}

/// The index that serves a statement's conditions from the `i`-th on: for the
/// first condition that is an equality on a column of the table with an
/// index on it, the index's root page and the condition's literal value.
pub open spec fn table_index(
    conds: Seq<ConditionView>,
    target: Seq<char>,
    columns: Seq<ColumnView>,
    entries: Seq<SchemaView>,
    i: nat,
) -> Option<(u64, Seq<char>)>
    decreases conds.len() - i,
{
    if i >= conds.len() {
        None
    } else {
        let next = table_index(conds, target, columns, entries, i + 1);
        match conds[i as int] {
            ConditionView::Eq(name, literal) => match column_named(columns, name) {
                None => next,
                Some(column) => match index_root(entries, target, column.name, 0) {
                    None => next,
                    Some(root) => Some((root, literal)),
                },
            },
            _ => next,
        }
    }
}

/// Looks for an index on the given column of the given table.
fn find_index(schemas: &Catalogue, target: &str, column: &str) -> (r: Option<u64>)
    ensures
        r == index_root(schemas@, target@, column@, 0),
{
    let mut i: usize = 0;
    while i < schemas.entries.len()
        invariant
            i <= schemas.entries@.len(),
            index_root(schemas@, target@, column@, 0) == index_root(
                schemas@,
                target@,
                column@,
                i as nat,
            ),
        decreases schemas.entries@.len() - i,
    {
        let entry = &schemas.entries[i];
        assert(schemas@[i as int] == entry@);
        let is_index = match entry.stype {
            SchemaType::Index => true,
            _ => false,
        };
        if is_index && same_text(entry.table_name.as_str(), target) {
            match create_idx_sql(entry.sql.as_str()) {
                Ok((_, indexed)) => {
                    if same_text(indexed.as_str(), column) {
                        return Some(entry.rootpage);
                    }
                },
                Err(_) => {},
            }
        }
        i += 1;
    }
    None
}

/// Chooses the index that serves the conditions of a statement on the table
/// `target`. Gives the root page of the index and the value to look for.
pub fn find_table_index(
    conds: &Vec<Condition>,
    target: &str,
    table: &Table,
    schemas: &Catalogue,
) -> (r: Option<(u64, String)>)
    ensures
        match r {
            Some((root, key)) => table_index(
                conditions_view(conds@),
                target@,
                table@.columns,
                schemas@,
                0,
            ) == Some((root, key@)),
            None => table_index(conditions_view(conds@), target@, table@.columns, schemas@, 0)
                .is_none(),
        },
{
    let ghost views = conditions_view(conds@);
    let mut i: usize = 0;
    while i < conds.len()
        invariant
            i <= conds@.len(),
            views == conditions_view(conds@),
            table_index(views, target@, table@.columns, schemas@, 0) == table_index(
                views,
                target@,
                table@.columns,
                schemas@,
                i as nat,
            ),
        decreases conds@.len() - i,
    {
        assert(views[i as int] == conds@[i as int]@);
        match &conds[i] {
            Condition::Eq(name, literal) => {
                match find_column(&table.columns, name.as_str()) {
                    Some(column) => {
                        match find_index(schemas, target, column.name.as_str()) {
                            Some(root) => {
                                return Some((root, literal.clone()));
                            },
                            None => {},
                        }
                    },
                    None => {},
                }
            },
            _ => {},
        }
        i += 1;
    }
    None
}

/// The first `max_chars` characters of a text; the text where it has no more.
pub open spec fn truncated(s: Seq<char>, max_chars: nat) -> Seq<char> {
    if max_chars < s.len() {
        s.take(max_chars as int)
    } else {
        s
    }
}

/// Cuts a string off behind its first `max_chars` characters.
pub fn truncate(s: &str, max_chars: usize) -> (r: &str)
    ensures
        r@ == truncated(s@, max_chars as nat),
{
    let n = s.unicode_len();
    if max_chars < n {
        let cut = s.substring_char(0, max_chars);
        assert(cut@ =~= s@.take(max_chars as int));
        cut
    } else {
        s
    }
}

/// A text as a table of `columns` columns shows it: where the table has more
/// than four columns, a text of more than ten bytes is cut off behind its
/// tenth character and ends in three dots.
pub open spec fn clipped(text: Seq<char>, columns: nat) -> Seq<char> {
    if encode_utf8(text).len() > 10 && columns > 4 {
        truncated(text, 10) + "..."@
    } else {
        text
    }
}

/// The text of a value as a table of `columns` columns shows it.
pub open spec fn shown(value: ValueView, columns: nat) -> Seq<char> {
    clipped(value.text(), columns)
}

/// A text as a table of `columns` columns shows it.
pub fn clip(text: &str, columns: usize) -> (r: String)
    ensures
        r@ == clipped(text@, columns as nat),
{
    if text.as_bytes().len() > 10 && columns > 4 {
        let mut out = truncate(text, 10).to_owned();
        out.append("...");
        out
    } else {
        text.to_owned()
    }
}

/// The text of a value as a table of `columns` columns shows it.
pub fn cell_text(value: &Value, columns: usize) -> (r: String)
    ensures
        r@ == shown(value@, columns as nat),
{
    let text = value.to_string();
    clip(text.as_str(), columns)
}

/// What a statement yields.
#[derive(Debug)]
pub struct Selection {
    /// The rows that the statement keeps, whole, in the order of the walk.
    pub rows: Vec<Row>,
    /// The columns that the statement asks for.
    pub columns: Vec<Column>,
    /// The number of rows, where the statement asks for it.
    pub count: Option<u32>,
}

/// What a [`Selection`] holds.
pub struct SelectionView {
    pub rows: Seq<Seq<ValueView>>,
    pub columns: Seq<ColumnView>,
    pub count: Option<u32>,
}

impl View for Selection {
    type V = SelectionView;

    open spec fn view(&self) -> SelectionView {
        SelectionView {
            rows: rows_view(self.rows@),
            columns: columns_view(self.columns@),
            count: self.count,
        }
    }
}

/// The search that a statement starts on a table: at the root of the index
/// that serves its conditions, for the value of the condition, or at the
/// root of the table.
pub open spec fn search_for(
    select: SelectView,
    schema: SchemaView,
    table: TableView,
    entries: Seq<SchemaView>,
    doubles: Seq<DoubleLiterals>,
) -> SearchView {
    match table_index(select.conds, select.name, table.columns, entries, 0) {
        Some((root, key)) => SearchView {
            pgno: root,
            key: Some(key),
            indeces: None,
            schema,
            conds: select.conds,
            doubles,
        },
        None => SearchView {
            pgno: schema.rootpage,
            key: None,
            indeces: None,
            schema,
            conds: select.conds,
            doubles,
        },
    }
}

/// What a statement yields on a file with the given catalogue entries.
///
/// The statement's table must be in the catalogue and its declaration must
/// be readable. A count is the number of cells on the table's root page: the
/// number of rows of a table that takes one page. Rows come from a search;
/// the page where it starts must be a page of the file.
pub open spec fn selection(
    file: Seq<u8>,
    entries: Seq<SchemaView>,
    select: SelectView,
    doubles: Seq<DoubleLiterals>,
) -> Result<SelectionView, ErrorView> {
    match entry_named(entries, select.name) {
        None => Err(ErrorView::NoSuchTable(select.name)),
        Some(schema) => match create_of(schema.sql) {
            None => Err(ErrorView::MalformedDDL(schema.sql)),
            Some(table) => if select.columns is Count {
                match page_of(file, schema.rootpage) {
                    Err(e) => Err(e@),
                    Ok(page) => Ok(
                        SelectionView {
                            rows: Seq::empty(),
                            columns: Seq::empty(),
                            count: Some(page.header.cell_count as u32),
                        },
                    ),
                }
            } else {
                let search = search_for(select, schema, table, entries, doubles);
                if page_of(file, search.pgno) is Err && page_of(file, search.pgno)->Err_0
                    is InvalidPageNumber {
                    Err(ErrorView::InvalidPageNumber(search.pgno))
                } else {
                    Ok(
                        SelectionView {
                            rows: walk(file, search, DEPTH_LIMIT as nat),
                            columns: table.select(select.columns),
                            count: None,
                        },
                    )
                }
            },
        },
    }
}

/// Runs a statement on a database. `doubles` holds the literal values of
/// the statement's conditions read as doubles, in the conditions' order.
pub fn run(stmt: Select, db: &Database, doubles: Vec<DoubleLiterals>) -> (r: Result<
    Selection,
    Error,
>)
    ensures
        match r {
            Ok(found) => selection(db.bytes(), db.entries(), stmt@, doubles@) == Ok::<
                SelectionView,
                ErrorView,
            >(found@),
            Err(e) => selection(db.bytes(), db.entries(), stmt@, doubles@) == Err::<
                SelectionView,
                ErrorView,
            >(e@),
        },
{
    let schemas = db.get_schemas();
    let schema: &Schema = match schemas.lookup(stmt.name.as_str()) {
        Some(schema) => schema,
        None => {
            return Err(Error::NoSuchTable(stmt.name.clone()));
        },
    };
    let table = match create_sql(schema.sql.as_str()) {
        Ok(table) => table,
        Err(e) => {
            return Err(e);
        },
    };
    match &stmt.columns {
        SelectColumns::Count => {
            match db.get_page(schema.rootpage) {
                Ok(page) => {
                    let rows: Vec<Row> = Vec::new();
                    let columns: Vec<Column> = Vec::new();
                    assert(rows_view(rows@) =~= Seq::<Seq<ValueView>>::empty());
                    assert(columns_view(columns@) =~= Seq::<ColumnView>::empty());
                    Ok(Selection { rows, columns, count: Some(page.header.cell_count as u32) })
                },
                Err(e) => Err(e),
            }
        },
        _ => {
            let columns = table.select(&stmt);
            let (pgno, key) = match find_table_index(
                &stmt.conds,
                stmt.name.as_str(),
                &table,
                &schemas,
            ) {
                Some((root, key)) => (root, Some(key)),
                None => (schema.rootpage, None),
            };
            match db.get_page(pgno) {
                Err(Error::InvalidPageNumber(n)) => {
                    return Err(Error::InvalidPageNumber(n));
                },
                _ => {},
            }
            let search = Search {
                pgno,
                key,
                indeces: None,
                schema: schema.clone(),
                conds: stmt.conds,
                doubles,
            };
            assert(search@ == search_for(stmt@, schema@, table@, schemas@, doubles@));
            let rows = db.rows(search);
            Ok(Selection { rows, columns, count: None })
        },
    }
}

/// The texts of a row under the given columns: for each column the text of
/// the value at the column's place, as a table of that many columns shows
/// it, and no text where the row has no such place.
pub open spec fn projected_row(row: Seq<ValueView>, columns: Seq<ColumnView>) -> Seq<Seq<char>> {
    Seq::new(
        columns.len(),
        |i: int|
            if columns[i].idx < row.len() {
                shown(row[columns[i].idx as int], columns.len())
            } else {
                Seq::empty()
            },
    )
}

/// The texts of each row under the given columns.
pub open spec fn projected(rows: Seq<Seq<ValueView>>, columns: Seq<ColumnView>) -> Seq<
    Seq<Seq<char>>,
> {
    Seq::new(rows.len(), |i: int| projected_row(rows[i], columns))
}

/// The text of each string of each row.
pub open spec fn table_texts(lines: Seq<Vec<String>>) -> Seq<Seq<Seq<char>>> {
    Seq::new(lines.len(), |i: int| crate::sql::texts(lines[i]@))
}

/// Projects rows onto columns: the texts that a table of the rows shows.
pub fn project(rows: &Vec<Row>, columns: &Vec<Column>) -> (r: Vec<Vec<String>>)
    ensures
        table_texts(r@) == projected(rows_view(rows@), columns_view(columns@)),
{
    let mut out: Vec<Vec<String>> = Vec::new();
    let mut i: usize = 0;
    while i < rows.len()
        invariant
            i <= rows@.len(),
            out@.len() == i,
            forall|k: int|
                0 <= k < i ==> crate::sql::texts(#[trigger] out@[k]@) == projected_row(
                    row_view(rows@[k]@),
                    columns_view(columns@),
                ),
        decreases rows@.len() - i,
    {
        let row = &rows[i];
        let mut line: Vec<String> = Vec::new();
        let mut j: usize = 0;
        while j < columns.len()
            invariant
                j <= columns@.len(),
                line@.len() == j,
                forall|k: int|
                    0 <= k < j ==> (#[trigger] line@[k])@ == projected_row(
                        row_view(row@),
                        columns_view(columns@),
                    )[k],
            decreases columns@.len() - j,
        {
            let place = columns[j].idx;
            let text = if place < row.len() {
                cell_text(&row[place], columns.len())
            } else {
                String::new()
            };
            line.push(text);
            j += 1;
        }
        assert(crate::sql::texts(line@) =~= projected_row(row_view(row@), columns_view(columns@)));
        out.push(line);
        i += 1;
    }
    assert(table_texts(out@) =~= projected(rows_view(rows@), columns_view(columns@)));
    out
}

/// Projection commutes with the conditions: a statement that names its
/// columns yields the rows of the statement that asks for all columns on
/// the same table under the same conditions. So projecting either's rows
/// onto the named columns gives the same texts.
pub proof fn lemma_projection_commutes(
    file: Seq<u8>,
    entries: Seq<SchemaView>,
    named: SelectView,
    all: SelectView,
    doubles: Seq<DoubleLiterals>,
)
    requires
        named.name == all.name,
        named.conds == all.conds,
        named.columns is Columns,
        all.columns is All,
    ensures
        selection(file, entries, named, doubles) is Ok <==> selection(file, entries, all, doubles)
            is Ok,
        selection(file, entries, named, doubles) is Err ==> selection(file, entries, named, doubles)
            ->Err_0 == selection(file, entries, all, doubles)->Err_0,
        selection(file, entries, named, doubles) is Ok ==> {
            let a = selection(file, entries, named, doubles)->Ok_0;
            let b = selection(file, entries, all, doubles)->Ok_0;
            &&& a.rows == b.rows
            &&& projected(a.rows, a.columns) == projected(b.rows, a.columns)
        },
{
    match entry_named(entries, named.name) {
        None => {},
        Some(schema) => match create_of(schema.sql) {
            None => {},
            Some(table) => {
                assert(search_for(named, schema, table, entries, doubles) == search_for(
                    all,
                    schema,
                    table,
                    entries,
                    doubles,
                ));
            },
        },
    }
}

/// For a table that takes one page, the count that a statement asks for is
/// the number of rows that a statement for all rows yields. This holds
/// where every cell that the page's header counts can be read, and the row
/// of each.
pub proof fn lemma_count_is_number_of_rows(
    file: Seq<u8>,
    entries: Seq<SchemaView>,
    count: SelectView,
    all: SelectView,
    doubles: Seq<DoubleLiterals>,
)
    requires
        count.name == all.name,
        count.columns is Count,
        all.columns is All,
        all.conds.len() == 0,
        entry_named(entries, all.name) matches Some(schema) && create_of(schema.sql) is Some && (
        page_of(file, schema.rootpage) matches Ok(page) && {
            &&& page.header.kind == PageKind::TableLeaf
            &&& page.cells().len() == page.header.cell_count
            &&& forall|i: int| 0 <= i < page.cells().len() ==> (#[trigger] page.cells()[i]).row()
                is Some
        }),
    ensures
        selection(file, entries, count, doubles) matches Ok(counted) && selection(
            file,
            entries,
            all,
            doubles,
        ) matches Ok(found) && counted.count == Some(found.rows.len() as u32),
{
    let schema = entry_named(entries, all.name).unwrap();
    let table = create_of(schema.sql).unwrap();
    let page = page_of(file, schema.rootpage)->Ok_0;
    let search = search_for(all, schema, table, entries, doubles);
    assert(search.pgno == schema.rootpage);
    lemma_leaf_rows_all(search, page.cells(), 0);
    assert(walk(file, search, DEPTH_LIMIT as nat) == crate::walk::leaf_rows_from(
        search,
        page.cells(),
        0,
    ));
}

} // verus!
