//! The catalogue: the rows of the schema table that page 1 holds.

use vstd::prelude::*;
use crate::error::Error;
use crate::text::same_text;
use crate::cells::CellView;
use crate::value::{row_view, Value, ValueView};

verus! {

/// What a catalogue entry describes.
#[derive(Clone, Copy, Debug, PartialEq, Eq)]
pub enum SchemaType {
    Table,
    Index,
    View,
    Trigger,
}

impl SchemaType {
    /// The kind that a text names, where it names one.
    pub open spec fn of_text(s: Seq<char>) -> Option<SchemaType> {
        if s == "table"@ {
            Some(SchemaType::Table)
        } else if s == "index"@ {
            Some(SchemaType::Index)
        } else if s == "view"@ {
            Some(SchemaType::View)
        } else if s == "trigger"@ {
            Some(SchemaType::Trigger)
        } else {
            None
        }
    }

    /// Reads the kind of an entry from the text that the schema table holds for it.
    pub fn from_text(s: &str) -> (r: Result<SchemaType, Error>)
        ensures
            match r {
                Ok(stype) => Self::of_text(s@) == Some(stype),
                Err(e) => Self::of_text(s@).is_none() && e == Error::MalformedRecord,
            },
    {
        if same_text(s, "table") {
            Ok(SchemaType::Table)
        } else if same_text(s, "index") {
            Ok(SchemaType::Index)
        } else if same_text(s, "view") {
            Ok(SchemaType::View)
        } else if same_text(s, "trigger") {
            Ok(SchemaType::Trigger)
        } else {
            Err(Error::MalformedRecord)
        }
    }
}

/// One entry of the catalogue.
#[derive(Debug, PartialEq, Eq)]
pub struct Schema {
    pub stype: SchemaType,
    /// The name of the table, index, view or trigger.
    pub name: String,
    /// The name of the table that the entry belongs to.
    pub table_name: String,
    /// The page on which the entry's B-tree starts.
    pub rootpage: u64,
    /// The statement that created the entry.
    pub sql: String,
}

/// What a [`Schema`] holds.
pub struct SchemaView {
    pub stype: SchemaType,
    pub name: Seq<char>,
    pub table_name: Seq<char>,
    pub rootpage: u64,
    pub sql: Seq<char>,
}

impl View for Schema {
    type V = SchemaView;

    open spec fn view(&self) -> SchemaView {
        SchemaView {
            stype: self.stype,
            name: self.name@,
            table_name: self.table_name@,
            rootpage: self.rootpage,
            sql: self.sql@,
        }
    }
}

impl Clone for Schema {
    fn clone(&self) -> (r: Self)
        ensures
            r@ == self@,
    {
        Schema {
            stype: self.stype,
            name: self.name.clone(),
            table_name: self.table_name.clone(),
            rootpage: self.rootpage,
            sql: self.sql.clone(),
        }
    }
}

impl SchemaView {
    /// The entry that a row of the schema table stands for: its first five
    /// values are the kind, the name, the table's name, the root page and the
    /// statement. `None` where the row has fewer values or names no kind.
    pub open spec fn of_row(row: Seq<ValueView>) -> Option<SchemaView> {
        if row.len() < 5 {
            None
        } else {
            match SchemaType::of_text(row[0].text()) {
                None => None,
                Some(stype) => Some(
                    SchemaView {
                        stype,
                        name: row[1].text(),
                        table_name: row[2].text(),
                        rootpage: row[3].as_u64(),
                        sql: row[4].text(),
                    },
                ),
            }
        }
    }
}

impl Schema {
    /// Reads a catalogue entry from a row of the schema table.
    pub fn new(row: Vec<Value>) -> (r: Result<Schema, Error>)
        ensures
            match r {
                Ok(schema) => SchemaView::of_row(row_view(row@)) == Some(schema@),
                Err(e) => SchemaView::of_row(row_view(row@)).is_none() && e
                    == Error::MalformedRecord,
            },
    {
        if row.len() < 5 {
            return Err(Error::MalformedRecord);
        }
        let kind = row[0].to_string();
        let stype = match SchemaType::from_text(kind.as_str()) {
            Ok(stype) => stype,
            Err(e) => {
                return Err(e);
            },
        };
        Ok(
            Schema {
                stype,
                name: row[1].to_string(),
                table_name: row[2].to_string(),
                rootpage: row[3].to_u64(),
                sql: row[4].to_string(),
            },
        )
    }
}

/// What each entry of a sequence holds, in order.
pub open spec fn schemas_view(entries: Seq<Schema>) -> Seq<SchemaView> {
    Seq::new(entries.len(), |i: int| entries[i]@)
}

/// The catalogue entries that the cells of the schema table's page give from
/// the `i`-th on, in the order of the cells. A cell whose row cannot be read,
/// or whose row stands for no entry, gives none.
pub open spec fn entries_from(cells: Seq<CellView>, i: nat) -> Seq<SchemaView>
    decreases cells.len() - i,
{
    if i >= cells.len() {
        Seq::empty()
    } else {
        let rest = entries_from(cells, i + 1);
        match cells[i as int].row() {
            None => rest,
            Some(row) => match SchemaView::of_row(row) {
                None => rest,
                Some(entry) => seq![entry] + rest,
            },
        }
    }
}

/// The last entry of `entries` that has the given name.
pub open spec fn entry_named(entries: Seq<SchemaView>, name: Seq<char>) -> Option<SchemaView>
    decreases entries.len(),
{
    if entries.len() == 0 {
        None
    } else if entries.last().name == name {
        Some(entries.last())
    } else {
        entry_named(entries.drop_last(), name)
    }
}

/// The entries that are indexes on the given table, in order.
pub open spec fn indexes_of(entries: Seq<SchemaView>, table_name: Seq<char>) -> Seq<SchemaView>
    decreases entries.len(),
{
    if entries.len() == 0 {
        Seq::empty()
    } else {
        let front = indexes_of(entries.drop_last(), table_name);
        if entries.last().stype == SchemaType::Index && entries.last().table_name == table_name {
            front.push(entries.last())
        } else {
            front
        }
    }
}

/// The catalogue: the entries of the schema table in the order in which the
/// table holds them. Where two entries share a name, a lookup finds the later.
#[derive(Debug, PartialEq, Eq)]
pub struct Catalogue {
    pub entries: Vec<Schema>,
}

impl View for Catalogue {
    type V = Seq<SchemaView>;

    open spec fn view(&self) -> Seq<SchemaView> {
        schemas_view(self.entries@)
    }
}

impl Catalogue {
    /// The entry of the given name.
    pub fn lookup(&self, name: &str) -> (r: Option<&Schema>)
        ensures
            match r {
                Some(entry) => entry_named(self@, name@) == Some(entry@),
                None => entry_named(self@, name@).is_none(),
            },
    {
        let mut i: usize = self.entries.len();
        let ghost all = self@;
        assert(all.take(i as int) =~= all);
        while i > 0
            invariant
                i <= self.entries@.len(),
                all == self@,
                entry_named(all, name@) == entry_named(all.take(i as int), name@),
            decreases i,
        {
            i -= 1;
            proof {
                let part = all.take(i + 1);
                assert(part.last() == self.entries@[i as int]@);
                assert(part.drop_last() =~= all.take(i as int));
            }
            if same_text(self.entries[i].name.as_str(), name) {
                return Some(&self.entries[i]);
            }
        }
        None
    }

    /// The entries in the order of the schema table.
    pub fn list(&self) -> (r: &Vec<Schema>)
        ensures
            schemas_view(r@) == self@,
    {
        &self.entries
    }

    /// The indexes on the given table, in the order of the schema table.
    pub fn indexes_on(&self, table_name: &str) -> (r: Vec<Schema>)
        ensures
            schemas_view(r@) == indexes_of(self@, table_name@),
    {
        let ghost all = self@;
        let mut out: Vec<Schema> = Vec::new();
        let mut i: usize = 0;
        proof {
            assert(all.take(0) =~= Seq::<SchemaView>::empty());
            assert(schemas_view(out@) =~= indexes_of(all.take(0), table_name@));
        }
        while i < self.entries.len()
            invariant
                i <= self.entries@.len(),
                all == self@,
                schemas_view(out@) == indexes_of(all.take(i as int), table_name@),
            decreases self.entries@.len() - i,
        {
            proof {
                let next = all.take(i + 1);
                assert(next.drop_last() =~= all.take(i as int));
                assert(next.last() == self.entries@[i as int]@);
            }
            let is_index = match self.entries[i].stype {
                SchemaType::Index => true,
                _ => false,
            };
            if is_index && same_text(self.entries[i].table_name.as_str(), table_name) {
                let copy = self.entries[i].clone();
                assert(schemas_view(out@.push(copy)) =~= schemas_view(out@).push(copy@));
                out.push(copy);
            }
            i += 1;
        }
        assert(all.take(i as int) =~= all);
        out
    }
}

} // verus!
