//! `CREATE TABLE` and `CREATE INDEX` statements, as far as they are read.
//!
//! ```text
//! table  := CREATE TABLE name ws "(" ws [column ("," column)*] ws ")" end
//! column := name ws type ws [PRIMARY KEY] ws [AUTOINCREMENT] ws [NOT NULL]
//! type   := word
//! index  := CREATE INDEX name ws ON name ws "(" ws name ws ")" end
//! ```
//!
//! Keywords and types are read in capitals, in lower case or in both.

use vstd::prelude::*;
use crate::error::Error;
use crate::lexer::{
    after_keyword, keyword_end, lower_text, name, name_at, skip_spaces, spaces, text_between,
    lower, to_lower, word, word_end, Span,
};
use crate::schemas::Schema;
use crate::sql::SelectColumnsView;
use crate::tables::{
    arranged, column_named, columns_view, lemma_arranged_in_order, visible_from, CellType, Column,
    ColumnView, Table, TableView,
};
use crate::text::{chars_of, string_of};

verus! {

/// Where reading goes on behind a keyword that may stand at `pos`, and
/// whether it stands there.
pub open spec fn optional_keyword(s: Seq<char>, pos: nat, kw: Seq<char>) -> (bool, nat) {
    match keyword_end(s, pos, kw) {
        Some(end) => (true, end),
        None => (false, pos),
    }
}

/// The declaration of a column that is read from `pos`, as the column of
/// place `idx`, and where it ends. A primary key is not nullable, nor is a
/// column declared `NOT NULL`.
pub open spec fn column_at(s: Seq<char>, pos: nat, idx: nat) -> Option<(ColumnView, nat)> {
    match name_at(s, pos) {
        None => None,
        Some(column) => {
            let type_start = skip_spaces(s, column.next as nat);
            let type_end = word_end(s, type_start);
            if type_end <= type_start {
                None
            } else {
                let (pk, pk_end) = optional_keyword(s, skip_spaces(s, type_end), "primary key"@);
                let (_, auto_end) = optional_keyword(
                    s,
                    skip_spaces(s, pk_end),
                    "autoincrement"@,
                );
                let (not_null, end) = optional_keyword(s, skip_spaces(s, auto_end), "not null"@);
                Some(
                    (
                        ColumnView {
                            idx: idx as usize,
                            name: column.text(s),
                            cell_type: CellType::of_text(
                                lower_text(s.subrange(type_start as int, type_end as int)),
                            ),
                            nullable: !pk && !not_null,
                            pk,
                        },
                        end,
                    ),
                )
            }
        },
    }
}

/// The declarations that follow one ending at `pos`, each behind a comma,
/// and where they end. `idx` is the place of the first of them.
pub open spec fn more_columns(s: Seq<char>, pos: nat, idx: nat) -> (Seq<ColumnView>, nat)
    decreases s.len() - pos,
{
    if pos < s.len() && s[pos as int] == ',' {
        match column_at(s, pos + 1, idx) {
            None => (Seq::empty(), pos),
            Some((column, next)) => if pos < next <= s.len() {
                let (rest, end) = more_columns(s, next, idx + 1);
                (seq![column] + rest, end)
            } else {
                (Seq::empty(), pos)
            },
        }
    } else {
        (Seq::empty(), pos)
    }
}

/// The declarations that are read from `pos`, with commas between them, and
/// where they end; none where no declaration starts there.
pub open spec fn declarations_at(s: Seq<char>, pos: nat) -> (Seq<ColumnView>, nat) {
    match column_at(s, pos, 0) {
        None => (Seq::empty(), pos),
        Some((column, next)) => {
            let (rest, end) = more_columns(s, next, 1);
            (seq![column] + rest, end)
        },
    }
}

/// The name of the first column that is declared as the primary key.
pub open spec fn first_key(columns: Seq<ColumnView>) -> Option<Seq<char>>
    decreases columns.len(),
{
    if columns.len() == 0 {
        None
    } else if columns[0].pk {
        Some(columns[0].name)
    } else {
        first_key(columns.skip(1))
    }
}

/// The table that `s` declares, where it writes a `CREATE TABLE` statement.
pub open spec fn create_of(s: Seq<char>) -> Option<TableView> {
    match keyword_end(s, 0, "create table"@) {
        None => None,
        Some(start) => match name_at(s, start) {
            None => None,
            Some(table) => {
                let open = skip_spaces(s, table.next as nat);
                if open < s.len() && s[open as int] == '(' {
                    let (columns, columns_end) = declarations_at(s, skip_spaces(s, open + 1));
                    let close = skip_spaces(s, columns_end);
                    if close + 1 == s.len() && s[close as int] == ')' {
                        Some(TableView { name: table.text(s), columns, key: first_key(columns) })
                    } else {
                        None
                    }
                } else {
                    None
                }
            },
        },
    }
}

/// The table and the column of the index that `s` declares, where it writes
/// a `CREATE INDEX` statement on one column.
pub open spec fn create_idx_of(s: Seq<char>) -> Option<(Seq<char>, Seq<char>)> {
    match keyword_end(s, 0, "create index"@) {
        None => None,
        Some(start) => match name_at(s, start) {
            None => None,
            Some(index) => match keyword_end(s, skip_spaces(s, index.next as nat), "on"@) {
                None => None,
                Some(on_end) => match name_at(s, on_end) {
                    None => None,
                    Some(table) => {
                        let open = skip_spaces(s, table.next as nat);
                        if open < s.len() && s[open as int] == '(' {
                            match name_at(s, open + 1) {
                                None => None,
                                Some(column) => {
                                    let close = skip_spaces(s, column.next as nat);
                                    if close + 1 == s.len() && s[close as int] == ')' {
                                        Some((table.text(s), column.text(s)))
                                    } else {
                                        None
                                    }
                                },
                            }
                        } else {
                            None
                        }
                    },
                },
            },
        },
    }
}

/// A declaration that is read ends within the statement, behind its start.
pub proof fn lemma_column_at(s: Seq<char>, pos: nat, idx: nat)
    requires
        pos <= s.len(),
        s.len() <= usize::MAX,
    ensures
        column_at(s, pos, idx) matches Some((_, next)) ==> pos < next <= s.len(),
{
    crate::lexer::lemma_spans(s, pos);
    match name_at(s, pos) {
        None => {},
        Some(column) => {
            let type_start = skip_spaces(s, column.next as nat);
            crate::lexer::lemma_skip_spaces(s, column.next as nat);
            let type_end = word_end(s, type_start);
            crate::lexer::lemma_word_end(s, type_start);
            let a = skip_spaces(s, type_end);
            crate::lexer::lemma_skip_spaces(s, type_end);
            let (_, pk_end) = optional_keyword(s, a, "primary key"@);
            let b = skip_spaces(s, pk_end);
            crate::lexer::lemma_skip_spaces(s, pk_end);
            let (_, auto_end) = optional_keyword(s, b, "autoincrement"@);
            crate::lexer::lemma_skip_spaces(s, auto_end);
        },
    }
}

/// The declarations behind a comma have the places that follow `idx`, one
/// after another, and there are no more of them than characters are left.
pub proof fn lemma_more_columns_places(s: Seq<char>, pos: nat, idx: nat, k: int)
    requires
        pos <= s.len(),
        s.len() <= usize::MAX,
        idx + (s.len() - pos) <= usize::MAX,
        0 <= k < more_columns(s, pos, idx).0.len(),
    ensures
        more_columns(s, pos, idx).0.len() <= s.len() - pos,
        more_columns(s, pos, idx).0[k].idx == idx + k,
    decreases s.len() - pos,
{
    if pos < s.len() && s[pos as int] == ',' {
        match column_at(s, pos + 1, idx) {
            None => {},
            Some((column, next)) => {
                lemma_column_at(s, pos + 1, idx);
                if pos < next <= s.len() {
                    let rest = more_columns(s, next, idx + 1).0;
                    if rest.len() > 0 {
                        lemma_more_columns_places(s, next, idx + 1, 0);
                    }
                    if k > 0 {
                        lemma_more_columns_places(s, next, idx + 1, k - 1);
                        assert(more_columns(s, pos, idx).0[k] == rest[k - 1]);
                    }
                }
            },
        }
    }
}

/// The `k`-th declaration of a table is the column of place `k`.
pub proof fn lemma_declarations_places(s: Seq<char>, pos: nat, k: int)
    requires
        0 < pos <= s.len(),
        s.len() <= usize::MAX,
        0 <= k < declarations_at(s, pos).0.len(),
    ensures
        declarations_at(s, pos).0.len() <= s.len(),
        declarations_at(s, pos).0[k].idx == k,
{
    match column_at(s, pos, 0) {
        None => {},
        Some((column, next)) => {
            lemma_column_at(s, pos, 0);
            if more_columns(s, next, 1).0.len() > 0 {
                lemma_more_columns_places(s, next, 1, 0);
            }
            if k > 0 {
                lemma_more_columns_places(s, next, 1, k - 1);
                assert(declarations_at(s, pos).0[k] == more_columns(s, next, 1).0[k - 1]);
            }
        },
    }
}

/// A column that is left from place `i` on has an `idx` no smaller than that
/// of the column at `i`, where the columns stand in the order of their `idx`.
pub proof fn lemma_visible_behind(columns: Seq<ColumnView>, i: nat, a: int)
    requires
        forall|x: int, y: int| 0 <= x < y < columns.len() ==> columns[x].idx < columns[y].idx,
        0 <= a < visible_from(columns, i).len(),
    ensures
        i < columns.len(),
        columns[i as int].idx <= visible_from(columns, i)[a].idx,
    decreases columns.len() - i,
{
    if i < columns.len() {
        let rest = visible_from(columns, i + 1);
        if column_named(columns.skip(i as int + 1), columns[i as int].name).is_some() {
            lemma_visible_behind(columns, i + 1, a);
        } else if a > 0 {
            lemma_visible_behind(columns, i + 1, a - 1);
            assert(visible_from(columns, i)[a] == rest[a - 1]);
        }
    }
}

/// Columns that stand in the order of their `idx`, none sharing one, keep
/// that order where those with a later namesake are left out.
pub proof fn lemma_visible_in_order(columns: Seq<ColumnView>, i: nat, a: int, b: int)
    requires
        forall|x: int, y: int| 0 <= x < y < columns.len() ==> columns[x].idx < columns[y].idx,
        0 <= a < b < visible_from(columns, i).len(),
    ensures
        visible_from(columns, i)[a].idx < visible_from(columns, i)[b].idx,
    decreases columns.len() - i,
{
    if i < columns.len() {
        let rest = visible_from(columns, i + 1);
        if column_named(columns.skip(i as int + 1), columns[i as int].name).is_some() {
            lemma_visible_in_order(columns, i + 1, a, b);
        } else {
            assert(visible_from(columns, i)[b] == rest[b - 1]);
            if a > 0 {
                lemma_visible_in_order(columns, i + 1, a - 1, b - 1);
                assert(visible_from(columns, i)[a] == rest[a - 1]);
            } else {
                lemma_visible_behind(columns, i + 1, b - 1);
            }
        }
    }
}

/// No more columns are left than there are.
pub proof fn lemma_visible_len(columns: Seq<ColumnView>, i: nat)
    requires
        i <= columns.len(),
    ensures
        visible_from(columns, i).len() <= columns.len() - i,
    decreases columns.len() - i,
{
    if i < columns.len() {
        lemma_visible_len(columns, i + 1);
    }
}

/// A statement that asks for all columns of a table that is read from its
/// `CREATE TABLE` statement gets them in the order of their declaration,
/// without those that a later declaration of the same name stands for.
pub proof fn lemma_all_columns_as_declared(s: Seq<char>)
    requires
        s.len() <= usize::MAX,
    ensures
        create_of(s) matches Some(table) ==> table.select(SelectColumnsView::All) == visible_from(
            table.columns,
            0,
        ) && forall|k: int| 0 <= k < table.columns.len() ==> (#[trigger] table.columns[k]).idx == k,
{
    match create_of(s) {
        None => {},
        Some(table) => {
            let start = keyword_end(s, 0, "create table"@).unwrap();
            let found = name_at(s, start).unwrap();
            crate::lexer::lemma_spans(s, start);
            let open = skip_spaces(s, found.next as nat);
            crate::lexer::lemma_skip_spaces(s, found.next as nat);
            let from = skip_spaces(s, open + 1);
            crate::lexer::lemma_skip_spaces(s, open + 1);
            let columns = table.columns;
            assert(columns == declarations_at(s, from).0);
            assert forall|k: int| 0 <= k < columns.len() implies (#[trigger] columns[k]).idx
                == k by {
                lemma_declarations_places(s, from, k);
            }
            let visible = visible_from(columns, 0);
            assert forall|a: int, b: int| 0 <= a < b < visible.len() implies visible[a].idx
                <= visible[b].idx by {
                lemma_visible_in_order(columns, 0, a, b);
            }
            lemma_visible_len(columns, 0);
            if columns.len() > 0 {
                lemma_declarations_places(s, from, columns.len() - 1);
            }
            lemma_arranged_in_order(visible);
        },
    }
}

/// Steps over the keyword `kw` where it stands at `pos`.
fn optional(s: &[char], pos: usize, kw: &str) -> (r: (bool, usize))
    requires
        pos <= s@.len(),
    ensures
        optional_keyword(s@, pos as nat, kw@) == (r.0, r.1 as nat),
        pos <= r.1 <= s@.len(),
{
    match after_keyword(s, pos, kw) {
        Some(end) => (true, end),
        None => (false, pos),
    }
}

/// The text between two positions, in lower case.
fn lower_between(s: &[char], start: usize, end: usize) -> (r: String)
    requires
        start <= end <= s@.len(),
    ensures
        r@ == lower_text(s@.subrange(start as int, end as int)),
{
    let mut out: Vec<char> = Vec::new();
    let mut i: usize = start;
    while i < end
        invariant
            start <= i <= end <= s@.len(),
            out@.len() == i - start,
            forall|j: int| 0 <= j < i - start ==> out@[j] == lower(s@[start + j]),
        decreases end - i,
    {
        out.push(to_lower(s[i]));
        i += 1;
    }
    assert(out@ =~= lower_text(s@.subrange(start as int, end as int)));
    string_of(out.as_slice())
}

/// Reads the declaration of a column from `pos`, as the column of place `idx`.
fn column(s: &[char], pos: usize, idx: usize) -> (r: Option<(Column, usize)>)
    requires
        pos <= s@.len(),
    ensures
        match r {
            Some((column, next)) => column_at(s@, pos as nat, idx as nat) == Some(
                (column@, next as nat),
            ) && pos < next <= s@.len(),
            None => column_at(s@, pos as nat, idx as nat).is_none(),
        },
{
    let len = s.len();
    proof {
        lemma_column_at(s@, pos as nat, idx as nat);
    }
    let found: Span = match name(s, pos) {
        Some(span) => span,
        None => {
            return None;
        },
    };
    let type_start = spaces(s, found.next);
    let type_end = word(s, type_start);
    if type_end <= type_start {
        return None;
    }
    let declared = lower_between(s, type_start, type_end);
    let cell_type = CellType::from_str(declared.as_str());
    let (pk, pk_end) = optional(s, spaces(s, type_end), "primary key");
    let (_, auto_end) = optional(s, spaces(s, pk_end), "autoincrement");
    let (not_null, end) = optional(s, spaces(s, auto_end), "not null");
    Some(
        (
            Column {
                idx,
                name: text_between(s, found.start, found.end),
                cell_type,
                nullable: !pk && !not_null,
                pk,
            },
            end,
        ),
    )
}

/// Reads declarations with commas between them from `pos`.
fn declarations(s: &[char], pos: usize) -> (r: (Vec<Column>, usize))
    requires
        pos <= s@.len(),
    ensures
        declarations_at(s@, pos as nat) == (columns_view(r.0@), r.1 as nat),
        pos <= r.1 <= s@.len(),
{
    let mut out: Vec<Column> = Vec::new();
    let mut at: usize = match column(s, pos, 0) {
        Some((column, next)) => {
            out.push(column);
            next
        },
        None => {
            assert(columns_view(out@) =~= Seq::<ColumnView>::empty());
            return (out, pos);
        },
    };
    assert(columns_view(out@) =~= seq![out@[0]@]);
    loop
        invariant
            pos <= at <= s@.len(),
            1 <= out@.len() <= at,
            declarations_at(s@, pos as nat) == (
                columns_view(out@) + more_columns(s@, at as nat, out@.len()).0,
                more_columns(s@, at as nat, out@.len()).1,
            ),
        decreases s@.len() - at,
    {
        let found = if at < s.len() && s[at] == ',' {
            column(s, at + 1, out.len())
        } else {
            None
        };
        match found {
            Some((column, next)) => {
                proof {
                    assert(columns_view(out@.push(column)) =~= columns_view(out@).push(column@));
                    assert(columns_view(out@.push(column)) + more_columns(
                        s@,
                        next as nat,
                        out@.len() + 1,
                    ).0 =~= columns_view(out@) + (seq![column@] + more_columns(
                        s@,
                        next as nat,
                        out@.len() + 1,
                    ).0));
                }
                out.push(column);
                at = next;
            },
            None => {
                proof {
                    assert(columns_view(out@) + Seq::<ColumnView>::empty() =~= columns_view(out@));
                }
                return (out, at);
            },
        }
    }
}

/// The name of the first column declared as the primary key.
fn key_of(columns: &Vec<Column>) -> (r: Option<String>)
    ensures
        match r {
            Some(key) => first_key(columns_view(columns@)) == Some(key@),
            None => first_key(columns_view(columns@)).is_none(),
        },
{
    let ghost all = columns_view(columns@);
    let mut i: usize = 0;
    assert(all.skip(0) =~= all);
    while i < columns.len()
        invariant
            i <= columns@.len(),
            all == columns_view(columns@),
            first_key(all) == first_key(all.skip(i as int)),
        decreases columns@.len() - i,
    {
        proof {
            assert(all.skip(i as int)[0] == columns@[i as int]@);
            assert(all.skip(i as int).skip(1) =~= all.skip(i + 1));
        }
        if columns[i].pk {
            return Some(columns[i].name.clone());
        }
        i += 1;
    }
    None
}

/// Reads a `CREATE TABLE` statement from its characters.
fn create(s: &[char]) -> (r: Option<Table>)
    ensures
        match r {
            Some(table) => create_of(s@) == Some(table@),
            None => create_of(s@).is_none(),
        },
{
    let start = match after_keyword(s, 0, "create table") {
        Some(end) => end,
        None => {
            return None;
        },
    };
    let found: Span = match name(s, start) {
        Some(span) => span,
        None => {
            return None;
        },
    };
    let open = spaces(s, found.next);
    if !(open < s.len() && s[open] == '(') {
        return None;
    }
    let (columns, columns_end) = declarations(s, spaces(s, open + 1));
    let close = spaces(s, columns_end);
    if close < s.len() && close + 1 == s.len() && s[close] == ')' {
        let key = key_of(&columns);
        Some(Table { name: text_between(s, found.start, found.end), columns, key })
    } else {
        None
    }
}

/// Reads a `CREATE INDEX` statement from its characters.
fn create_idx(s: &[char]) -> (r: Option<(String, String)>)
    ensures
        match r {
            Some((table, column)) => create_idx_of(s@) == Some((table@, column@)),
            None => create_idx_of(s@).is_none(),
        },
{
    let start = match after_keyword(s, 0, "create index") {
        Some(end) => end,
        None => {
            return None;
        },
    };
    let index: Span = match name(s, start) {
        Some(span) => span,
        None => {
            return None;
        },
    };
    let on_end = match after_keyword(s, spaces(s, index.next), "on") {
        Some(end) => end,
        None => {
            return None;
        },
    };
    let table: Span = match name(s, on_end) {
        Some(span) => span,
        None => {
            return None;
        },
    };
    let open = spaces(s, table.next);
    if !(open < s.len() && s[open] == '(') {
        return None;
    }
    let column: Span = match name(s, open + 1) {
        Some(span) => span,
        None => {
            return None;
        },
    };
    let close = spaces(s, column.next);
    if close < s.len() && close + 1 == s.len() && s[close] == ')' {
        Some(
            (
                text_between(s, table.start, table.end),
                text_between(s, column.start, column.end),
            ),
        )
    } else {
        None
    }
}

/// Reads a `CREATE INDEX` statement on one column. Gives the name of the
/// table and the name of the column. A text that writes no such statement is
/// handed back in the error.
pub fn create_idx_sql(s: &str) -> (r: Result<(String, String), Error>)
    ensures
        match r {
            Ok((table, column)) => create_idx_of(s@) == Some((table@, column@)),
            Err(e) => {
                &&& create_idx_of(s@).is_none()
                &&& e matches Error::MalformedDDL(text)
                &&& text@ == s@
            },
        },
{
    let chars = chars_of(s);
    match create_idx(chars.as_slice()) {
        Some(found) => Ok(found),
        None => Err(Error::MalformedDDL(s.to_owned())),
    }
}

/// Reads a `CREATE TABLE` statement. A text that writes none is handed back
/// in the error.
pub fn create_sql(s: &str) -> (r: Result<Table, Error>)
    ensures
        match r {
            Ok(table) => create_of(s@) == Some(table@),
            Err(e) => {
                &&& create_of(s@).is_none()
                &&& e matches Error::MalformedDDL(text)
                &&& text@ == s@
            },
        },
{
    let chars = chars_of(s);
    match create(chars.as_slice()) {
        Some(table) => Ok(table),
        None => Err(Error::MalformedDDL(s.to_owned())),
    }
}

impl Table {
    /// Reads a table from the statement of its catalogue entry.
    pub fn try_from(value: &Schema) -> (r: Result<Table, Error>)
        ensures
            match r {
                Ok(table) => create_of(value@.sql) == Some(table@),
                Err(e) => {
                    &&& create_of(value@.sql).is_none()
                    &&& e matches Error::MalformedDDL(text)
                    &&& text@ == value@.sql
                },
            },
    {
        create_sql(value.sql.as_str())
    }

    /// Reads a table from its `CREATE TABLE` statement.
    pub fn from_str(s: &str) -> (r: Result<Table, Error>)
        ensures
            match r {
                Ok(table) => create_of(s@) == Some(table@),
                Err(e) => {
                    &&& create_of(s@).is_none()
                    &&& e matches Error::MalformedDDL(text)
                    &&& text@ == s@
                },
            },
    {
        create_sql(s)
    }
}

} // verus!
