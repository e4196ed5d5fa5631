//! `SELECT` statements: what they hold and how they are read.
//!
//! ```text
//! select    := SELECT ws columns ws FROM name ws [ws WHERE conditions] end
//! columns   := "*" | COUNT(*) | [name ("," name)*]
//! conditions:= [condition ((AND | OR) condition)*]
//! condition := name ws operator ws value ws
//!            | name ws BETWEEN ws value ws AND ws value ws
//! operator  := "=" | ">=" | ">" | "<=" | "<" | "!="
//! ```
//!
//! Keywords are read in capitals, in lower case or in both. `AND` and `OR`
//! both join conditions that must all hold.

use vstd::prelude::*;
use crate::error::Error;
use crate::lexer::{
    after_keyword, keyword_end, name, name_at, skip_spaces, spaces, text_between, value,
    value_at, Span,
};
use crate::text::chars_of;

verus! {

/// The columns that a statement asks for.
#[derive(Debug, PartialEq, Eq)]
pub enum SelectColumns {
    /// The columns of these names, in this order.
    Columns(Vec<String>),
    /// Every column.
    All,
    /// No column: the number of rows.
    Count,
}

/// What a [`SelectColumns`] holds.
pub enum SelectColumnsView {
    Columns(Seq<Seq<char>>),
    All,
    Count,
}

/// The text of each string of a sequence, in order.
pub open spec fn texts(names: Seq<String>) -> Seq<Seq<char>> {
    Seq::new(names.len(), |i: int| names[i]@)
}

impl View for SelectColumns {
    type V = SelectColumnsView;

    open spec fn view(&self) -> SelectColumnsView {
        match self {
            SelectColumns::Columns(names) => SelectColumnsView::Columns(texts(names@)),
            SelectColumns::All => SelectColumnsView::All,
            SelectColumns::Count => SelectColumnsView::Count,
        }
    }
}

impl Clone for SelectColumns {
    fn clone(&self) -> (r: Self)
        ensures
            r@ == self@,
    {
        match self {
            SelectColumns::Columns(names) => {
                let mut out: Vec<String> = Vec::new();
                let mut i: usize = 0;
                while i < names.len()
                    invariant
                        i <= names@.len(),
                        out@.len() == i,
                        forall|j: int| 0 <= j < i ==> out@[j]@ == names@[j]@,
                    decreases names@.len() - i,
                {
                    out.push(names[i].clone());
                    i += 1;
                }
                assert(texts(out@) =~= texts(names@));
                SelectColumns::Columns(out)
            },
            SelectColumns::All => SelectColumns::All,
            SelectColumns::Count => SelectColumns::Count,
        }
    }
}

/// A condition on one column: the column's name and one or two literal values.
#[derive(Debug, PartialEq, Eq)]
pub enum Condition {
    Eq(String, String),
    Greater(String, String),
    GreaterEq(String, String),
    Less(String, String),
    LessEq(String, String),
    Ne(String, String),
    /// The column lies between the two values, both included.
    Between(String, String, String),
}

/// What a [`Condition`] holds.
pub enum ConditionView {
    Eq(Seq<char>, Seq<char>),
    Greater(Seq<char>, Seq<char>),
    GreaterEq(Seq<char>, Seq<char>),
    Less(Seq<char>, Seq<char>),
    LessEq(Seq<char>, Seq<char>),
    Ne(Seq<char>, Seq<char>),
    Between(Seq<char>, Seq<char>, Seq<char>),
}

impl View for Condition {
    type V = ConditionView;

    open spec fn view(&self) -> ConditionView {
        match self {
            Condition::Eq(c, v) => ConditionView::Eq(c@, v@),
            Condition::Greater(c, v) => ConditionView::Greater(c@, v@),
            Condition::GreaterEq(c, v) => ConditionView::GreaterEq(c@, v@),
            Condition::Less(c, v) => ConditionView::Less(c@, v@),
            Condition::LessEq(c, v) => ConditionView::LessEq(c@, v@),
            Condition::Ne(c, v) => ConditionView::Ne(c@, v@),
            Condition::Between(c, from, to) => ConditionView::Between(c@, from@, to@),
        }
    }
}

impl ConditionView {
    /// The name of the column that the condition is on.
    pub open spec fn column(self) -> Seq<char> {
        match self {
            ConditionView::Eq(c, _) => c,
            ConditionView::Greater(c, _) => c,
            ConditionView::GreaterEq(c, _) => c,
            ConditionView::Less(c, _) => c,
            ConditionView::LessEq(c, _) => c,
            ConditionView::Ne(c, _) => c,
            ConditionView::Between(c, _, _) => c,
        }
    }

    /// The literal value of the condition; the lower one of `Between`.
    pub open spec fn literal(self) -> Seq<char> {
        match self {
            ConditionView::Eq(_, v) => v,
            ConditionView::Greater(_, v) => v,
            ConditionView::GreaterEq(_, v) => v,
            ConditionView::Less(_, v) => v,
            ConditionView::LessEq(_, v) => v,
            ConditionView::Ne(_, v) => v,
            ConditionView::Between(_, from, _) => from,
        }
    }
}

impl Clone for Condition {
    fn clone(&self) -> (r: Self)
        ensures
            r@ == self@,
    {
        match self {
            Condition::Eq(c, v) => Condition::Eq(c.clone(), v.clone()),
            Condition::Greater(c, v) => Condition::Greater(c.clone(), v.clone()),
            Condition::GreaterEq(c, v) => Condition::GreaterEq(c.clone(), v.clone()),
            Condition::Less(c, v) => Condition::Less(c.clone(), v.clone()),
            Condition::LessEq(c, v) => Condition::LessEq(c.clone(), v.clone()),
            Condition::Ne(c, v) => Condition::Ne(c.clone(), v.clone()),
            Condition::Between(c, from, to) => Condition::Between(
                c.clone(),
                from.clone(),
                to.clone(),
            ),
        }
    }
}

impl Condition {
    /// The column's name and the literal value; of `Between`, the lower value.
    pub fn unbox(&self) -> (r: (&String, &String))
        ensures
            r.0@ == self@.column(),
            r.1@ == self@.literal(),
    {
        match self {
            Condition::Eq(col_name, val) => (col_name, val),
            Condition::Greater(col_name, val) => (col_name, val),
            Condition::GreaterEq(col_name, val) => (col_name, val),
            Condition::Less(col_name, val) => (col_name, val),
            Condition::LessEq(col_name, val) => (col_name, val),
            Condition::Ne(col_name, val) => (col_name, val),
            Condition::Between(col_name, from, _) => (col_name, from),
        }
    }
}

/// What each condition of a sequence holds, in order.
pub open spec fn conditions_view(conds: Seq<Condition>) -> Seq<ConditionView> {
    Seq::new(conds.len(), |i: int| conds[i]@)
}

/// Copies a list of conditions.
pub fn clone_conditions(conds: &Vec<Condition>) -> (r: Vec<Condition>)
    ensures
        conditions_view(r@) == conditions_view(conds@),
{
    let mut out: Vec<Condition> = Vec::new();
    let mut i: usize = 0;
    while i < conds.len()
        invariant
            i <= conds@.len(),
            out@.len() == i,
            forall|j: int| 0 <= j < i ==> out@[j]@ == conds@[j]@,
        decreases conds@.len() - i,
    {
        out.push(conds[i].clone());
        i += 1;
    }
    assert(conditions_view(out@) =~= conditions_view(conds@));
    out
}

/// A statement that asks for rows of one table.
#[derive(Debug, PartialEq, Eq)]
pub struct Select {
    /// The name of the table.
    pub name: String,
    pub columns: SelectColumns,
    /// The conditions that a row must meet, all of them.
    pub conds: Vec<Condition>,
}

/// What a [`Select`] holds.
pub struct SelectView {
    pub name: Seq<char>,
    pub columns: SelectColumnsView,
    pub conds: Seq<ConditionView>,
}

impl View for Select {
    type V = SelectView;

    open spec fn view(&self) -> SelectView {
        SelectView {
            name: self.name@,
            columns: self.columns@,
            conds: conditions_view(self.conds@),
        }
    }
}

impl Clone for Select {
    fn clone(&self) -> (r: Self)
        ensures
            r@ == self@,
    {
        Select {
            name: self.name.clone(),
            columns: self.columns.clone(),
            conds: clone_conditions(&self.conds),
        }
    }
}

/// The operators of a condition.
#[derive(Debug, Clone, Copy, PartialEq, Eq)]
pub enum Operator {
    Eq,
    GreaterEq,
    Greater,
    LessEq,
    Less,
    Ne,
    Between,
}

/// The operator that stands at `pos`, and where it ends. Of two operators
/// that start alike the longer one is read.
pub open spec fn operator_at(s: Seq<char>, pos: nat) -> Option<(Operator, nat)> {
    if let Some(end) = keyword_end(s, pos, "="@) {
        Some((Operator::Eq, end))
    } else if let Some(end) = keyword_end(s, pos, ">="@) {
        Some((Operator::GreaterEq, end))
    } else if let Some(end) = keyword_end(s, pos, ">"@) {
        Some((Operator::Greater, end))
    } else if let Some(end) = keyword_end(s, pos, "<="@) {
        Some((Operator::LessEq, end))
    } else if let Some(end) = keyword_end(s, pos, "<"@) {
        Some((Operator::Less, end))
    } else if let Some(end) = keyword_end(s, pos, "!="@) {
        Some((Operator::Ne, end))
    } else if let Some(end) = keyword_end(s, pos, "between"@) {
        Some((Operator::Between, end))
    } else {
        None
    }
}

/// The condition of one literal value that an operator makes.
pub open spec fn simple_condition(op: Operator, column: Seq<char>, literal: Seq<char>)
    -> ConditionView {
    match op {
        Operator::Eq => ConditionView::Eq(column, literal),
        Operator::GreaterEq => ConditionView::GreaterEq(column, literal),
        Operator::Greater => ConditionView::Greater(column, literal),
        Operator::LessEq => ConditionView::LessEq(column, literal),
        Operator::Less => ConditionView::Less(column, literal),
        _ => ConditionView::Ne(column, literal),
    }
}

/// The condition that is read from `pos`, and where reading goes on: behind
/// the spaces that follow the condition.
pub open spec fn condition_at(s: Seq<char>, pos: nat) -> Option<(ConditionView, nat)> {
    match name_at(s, pos) {
        None => None,
        Some(column) => match operator_at(s, skip_spaces(s, column.next as nat)) {
            None => None,
            Some((op, after)) => match value_at(s, skip_spaces(s, after)) {
                None => None,
                Some(first) => {
                    let end = skip_spaces(s, first.next as nat);
                    if op != Operator::Between {
                        Some((simple_condition(op, column.text(s), first.text(s)), end))
                    } else {
                        match keyword_end(s, end, "and"@) {
                            None => None,
                            Some(and_end) => match value_at(s, skip_spaces(s, and_end)) {
                                None => None,
                                Some(second) => Some(
                                    (
                                        ConditionView::Between(
                                            column.text(s),
                                            first.text(s),
                                            second.text(s),
                                        ),
                                        skip_spaces(s, second.next as nat),
                                    ),
                                ),
                            },
                        }
                    }
                },
            },
        },
    }
}

/// Where the word ends that joins two conditions, where one stands at `pos`.
pub open spec fn joiner_end(s: Seq<char>, pos: nat) -> Option<nat> {
    if let Some(end) = keyword_end(s, pos, "and"@) {
        Some(end)
    } else {
        keyword_end(s, pos, "or"@)
    }
}

/// The conditions that follow a condition ending at `pos`, each behind a
/// joining word, and where they end.
pub open spec fn more_conditions(s: Seq<char>, pos: nat) -> (Seq<ConditionView>, nat)
    decreases s.len() - pos,
{
    match joiner_end(s, pos) {
        None => (Seq::empty(), pos),
        Some(start) => match condition_at(s, start) {
            None => (Seq::empty(), pos),
            Some((cond, next)) => if pos < next <= s.len() {
                let (rest, end) = more_conditions(s, next);
                (seq![cond] + rest, end)
            } else {
                (Seq::empty(), pos)
            },
        },
    }
}

/// The conditions that are read from `pos`, none where no condition starts
/// there, and where they end.
pub open spec fn conditions_at(s: Seq<char>, pos: nat) -> (Seq<ConditionView>, nat) {
    match condition_at(s, pos) {
        None => (Seq::empty(), pos),
        Some((cond, next)) => {
            let (rest, end) = more_conditions(s, next);
            (seq![cond] + rest, end)
        },
    }
}

/// A condition that is read ends within the statement, behind its start.
pub proof fn lemma_condition_at(s: Seq<char>, pos: nat)
    requires
        pos <= s.len(),
        s.len() <= usize::MAX,
    ensures
        condition_at(s, pos) matches Some((_, next)) ==> pos < next <= s.len(),
{
    crate::lexer::lemma_spans(s, pos);
    match name_at(s, pos) {
        None => {},
        Some(column) => {
            let p = skip_spaces(s, column.next as nat);
            crate::lexer::lemma_skip_spaces(s, column.next as nat);
            match operator_at(s, p) {
                None => {},
                Some((op, after)) => {
                    let q = skip_spaces(s, after);
                    crate::lexer::lemma_skip_spaces(s, after);
                    crate::lexer::lemma_spans(s, q);
                    match value_at(s, q) {
                        None => {},
                        Some(first) => {
                            let end = skip_spaces(s, first.next as nat);
                            crate::lexer::lemma_skip_spaces(s, first.next as nat);
                            match keyword_end(s, end, "and"@) {
                                None => {},
                                Some(and_end) => {
                                    let t = skip_spaces(s, and_end);
                                    crate::lexer::lemma_skip_spaces(s, and_end);
                                    crate::lexer::lemma_spans(s, t);
                                    match value_at(s, t) {
                                        None => {},
                                        Some(second) => {
                                            crate::lexer::lemma_skip_spaces(s, second.next as nat);
                                        },
                                    }
                                },
                            }
                        },
                    }
                },
            }
        },
    }
}

/// Reads the operator at `pos`.
fn operator(s: &[char], pos: usize) -> (r: Option<(Operator, usize)>)
    requires
        pos <= s@.len(),
    ensures
        match r {
            Some((op, end)) => operator_at(s@, pos as nat) == Some((op, end as nat)) && pos <= end
                <= s@.len(),
            None => operator_at(s@, pos as nat).is_none(),
        },
{
    if let Some(end) = after_keyword(s, pos, "=") {
        Some((Operator::Eq, end))
    } else if let Some(end) = after_keyword(s, pos, ">=") {
        Some((Operator::GreaterEq, end))
    } else if let Some(end) = after_keyword(s, pos, ">") {
        Some((Operator::Greater, end))
    } else if let Some(end) = after_keyword(s, pos, "<=") {
        Some((Operator::LessEq, end))
    } else if let Some(end) = after_keyword(s, pos, "<") {
        Some((Operator::Less, end))
    } else if let Some(end) = after_keyword(s, pos, "!=") {
        Some((Operator::Ne, end))
    } else if let Some(end) = after_keyword(s, pos, "between") {
        Some((Operator::Between, end))
    } else {
        None
    }
}

/// Reads one condition from `pos`.
fn condition(s: &[char], pos: usize) -> (r: Option<(Condition, usize)>)
    requires
        pos <= s@.len(),
    ensures
        match r {
            Some((cond, next)) => condition_at(s@, pos as nat) == Some((cond@, next as nat))
                && pos < next <= s@.len(),
            None => condition_at(s@, pos as nat).is_none(),
        },
{
    let len = s.len();
    proof {
        lemma_condition_at(s@, pos as nat);
    }
    let column: Span = match name(s, pos) {
        Some(span) => span,
        None => {
            return None;
        },
    };
    let p = spaces(s, column.next);
    let (op, after) = match operator(s, p) {
        Some(found) => found,
        None => {
            return None;
        },
    };
    let q = spaces(s, after);
    let first: Span = match value(s, q) {
        Some(span) => span,
        None => {
            return None;
        },
    };
    let end = spaces(s, first.next);
    let c = text_between(s, column.start, column.end);
    let v = text_between(s, first.start, first.end);
    match op {
        Operator::Eq => Some((Condition::Eq(c, v), end)),
        Operator::GreaterEq => Some((Condition::GreaterEq(c, v), end)),
        Operator::Greater => Some((Condition::Greater(c, v), end)),
        Operator::LessEq => Some((Condition::LessEq(c, v), end)),
        Operator::Less => Some((Condition::Less(c, v), end)),
        Operator::Ne => Some((Condition::Ne(c, v), end)),
        Operator::Between => {
            let and_end = match after_keyword(s, end, "and") {
                Some(e) => e,
                None => {
                    return None;
                },
            };
            let t = spaces(s, and_end);
            let second: Span = match value(s, t) {
                Some(span) => span,
                None => {
                    return None;
                },
            };
            let w = text_between(s, second.start, second.end);
            Some((Condition::Between(c, v, w), spaces(s, second.next)))
        },
    }
}

/// Reads the conditions from `pos`, up to the first place where no further
/// condition follows.
fn conditions(s: &[char], pos: usize) -> (r: (Vec<Condition>, usize))
    requires
        pos <= s@.len(),
    ensures
        conditions_at(s@, pos as nat) == (conditions_view(r.0@), r.1 as nat),
        pos <= r.1 <= s@.len(),
{
    let mut out: Vec<Condition> = Vec::new();
    let mut at: usize = match condition(s, pos) {
        Some((cond, next)) => {
            out.push(cond);
            next
        },
        None => {
            assert(conditions_view(out@) =~= Seq::<ConditionView>::empty());
            return (out, pos);
        },
    };
    assert(conditions_view(out@) =~= seq![out@[0]@]);
    loop
        invariant
            pos <= at <= s@.len(),
            conditions_at(s@, pos as nat) == (
                conditions_view(out@) + more_conditions(s@, at as nat).0,
                more_conditions(s@, at as nat).1,
            ),
        decreases s@.len() - at,
    {
        let start = match after_keyword(s, at, "and") {
            Some(end) => Some(end),
            None => after_keyword(s, at, "or"),
        };
        let found = match start {
            Some(start) => condition(s, start),
            None => None,
        };
        match found {
            Some((cond, next)) => {
                proof {
                    assert(conditions_view(out@.push(cond)) =~= conditions_view(out@).push(cond@));
                    assert(conditions_view(out@.push(cond)) + more_conditions(s@, next as nat).0
                        =~= conditions_view(out@) + (seq![cond@] + more_conditions(
                        s@,
                        next as nat,
                    ).0));
                }
                out.push(cond);
                at = next;
            },
            None => {
                proof {
                    assert(conditions_view(out@) + Seq::<ConditionView>::empty()
                        =~= conditions_view(out@));
                }
                return (out, at);
            },
        }
    }
}

/// The names that follow a name ending at `pos`, each behind a comma, and
/// where they end.
pub open spec fn more_names(s: Seq<char>, pos: nat) -> (Seq<Seq<char>>, nat)
    decreases s.len() - pos,
{
    if pos < s.len() && s[pos as int] == ',' {
        match name_at(s, pos + 1) {
            None => (Seq::empty(), pos),
            Some(span) => if pos < span.next <= s.len() {
                let (rest, end) = more_names(s, span.next as nat);
                (seq![span.text(s)] + rest, end)
            } else {
                (Seq::empty(), pos)
            },
        }
    } else {
        (Seq::empty(), pos)
    }
}

/// The names that are read from `pos`, with commas between them, and where
/// they end; none where no name starts there.
pub open spec fn names_at(s: Seq<char>, pos: nat) -> (Seq<Seq<char>>, nat) {
    match name_at(s, pos) {
        None => (Seq::empty(), pos),
        Some(span) => {
            let (rest, end) = more_names(s, span.next as nat);
            (seq![span.text(s)] + rest, end)
        },
    }
}

/// The columns that a statement asks for at `pos`: a star for all of them,
/// `count(*)` for the number of rows, or a list of names.
pub open spec fn columns_at(s: Seq<char>, pos: nat) -> (SelectColumnsView, nat) {
    if pos < s.len() && s[pos as int] == '*' {
        (SelectColumnsView::All, pos + 1)
    } else if let Some(end) = keyword_end(s, pos, "count(*)"@) {
        (SelectColumnsView::Count, end)
    } else {
        let (names, end) = names_at(s, pos);
        (SelectColumnsView::Columns(names), end)
    }
}

/// The conditions of a statement whose table's name ends before `pos`, and
/// where the statement ends: those behind `WHERE`, or none.
pub open spec fn search_at(s: Seq<char>, pos: nat) -> (Seq<ConditionView>, nat) {
    match keyword_end(s, pos, "where"@) {
        Some(start) => conditions_at(s, start),
        None => (Seq::empty(), pos),
    }
}

/// The statement that `s` writes, where it writes a `SELECT` statement.
pub open spec fn select_of(s: Seq<char>) -> Option<SelectView> {
    match keyword_end(s, 0, "select"@) {
        None => None,
        Some(start) => {
            let (columns, columns_end) = columns_at(s, skip_spaces(s, start));
            match keyword_end(s, skip_spaces(s, columns_end), "from"@) {
                None => None,
                Some(from_end) => match name_at(s, from_end) {
                    None => None,
                    Some(table) => {
                        let (conds, end) = search_at(s, skip_spaces(s, table.next as nat));
                        if end == s.len() {
                            Some(SelectView { name: table.text(s), columns, conds })
                        } else {
                            None
                        }
                    },
                },
            }
        },
    }
}

/// Reads names with commas between them from `pos`.
fn names(s: &[char], pos: usize) -> (r: (Vec<String>, usize))
    requires
        pos <= s@.len(),
    ensures
        names_at(s@, pos as nat) == (texts(r.0@), r.1 as nat),
        pos <= r.1 <= s@.len(),
{
    let mut out: Vec<String> = Vec::new();
    let mut at: usize = match name(s, pos) {
        Some(span) => {
            out.push(text_between(s, span.start, span.end));
            span.next
        },
        None => {
            assert(texts(out@) =~= Seq::<Seq<char>>::empty());
            return (out, pos);
        },
    };
    assert(texts(out@) =~= seq![out@[0]@]);
    loop
        invariant
            pos <= at <= s@.len(),
            names_at(s@, pos as nat) == (
                texts(out@) + more_names(s@, at as nat).0,
                more_names(s@, at as nat).1,
            ),
        decreases s@.len() - at,
    {
        let found = if at < s.len() && s[at] == ',' {
            name(s, at + 1)
        } else {
            None
        };
        match found {
            Some(span) => {
                let text = text_between(s, span.start, span.end);
                proof {
                    assert(texts(out@.push(text)) =~= texts(out@).push(text@));
                    assert(texts(out@.push(text)) + more_names(s@, span.next as nat).0 =~= texts(
                        out@,
                    ) + (seq![text@] + more_names(s@, span.next as nat).0));
                }
                out.push(text);
                at = span.next;
            },
            None => {
                proof {
                    assert(texts(out@) + Seq::<Seq<char>>::empty() =~= texts(out@));
                }
                return (out, at);
            },
        }
    }
}

/// Reads the columns that a statement asks for at `pos`.
fn columns(s: &[char], pos: usize) -> (r: (SelectColumns, usize))
    requires
        pos <= s@.len(),
    ensures
        columns_at(s@, pos as nat) == (r.0@, r.1 as nat),
        pos <= r.1 <= s@.len(),
{
    if pos < s.len() && s[pos] == '*' {
        (SelectColumns::All, pos + 1)
    } else if let Some(end) = after_keyword(s, pos, "count(*)") {
        (SelectColumns::Count, end)
    } else {
        let (found, end) = names(s, pos);
        (SelectColumns::Columns(found), end)
    }
}

/// Reads a statement from its characters.
fn select(s: &[char]) -> (r: Option<Select>)
    ensures
        match r {
            Some(statement) => select_of(s@) == Some(statement@),
            None => select_of(s@).is_none(),
        },
{
    let start = match after_keyword(s, 0, "select") {
        Some(end) => end,
        None => {
            return None;
        },
    };
    let (columns, columns_end) = columns(s, spaces(s, start));
    let from_end = match after_keyword(s, spaces(s, columns_end), "from") {
        Some(end) => end,
        None => {
            return None;
        },
    };
    let table: Span = match name(s, from_end) {
        Some(span) => span,
        None => {
            return None;
        },
    };
    let after_table = spaces(s, table.next);
    let (conds, end) = match after_keyword(s, after_table, "where") {
        Some(start) => conditions(s, start),
        None => {
            let none: Vec<Condition> = Vec::new();
            assert(conditions_view(none@) =~= Seq::<ConditionView>::empty());
            (none, after_table)
        },
    };
    if end == s.len() {
        Some(Select { name: text_between(s, table.start, table.end), columns, conds })
    } else {
        None
    }
}

impl Select {
    /// Reads a `SELECT` statement. A text that writes none is handed back in the error.
    pub fn from_str(s: &str) -> (r: Result<Select, Error>)
        ensures
            match r {
                Ok(statement) => select_of(s@) == Some(statement@),
                Err(e) => {
                    &&& select_of(s@).is_none()
                    &&& e matches Error::MalformedSelect(text)
                    &&& text@ == s@
                },
            },
    {
        let chars = chars_of(s);
        match select(chars.as_slice()) {
            Some(statement) => Ok(statement),
            None => Err(Error::MalformedSelect(s.to_owned())),
        }
    }
}

} // verus!
