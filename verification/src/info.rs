//! The database header as text, and the names of the catalogue's entries.

use vstd::prelude::*;
use crate::db::Database;
use crate::db_header::{u16_at, u32_at};
use crate::decimal::{natural_text, push_natural};
use crate::schemas::{schemas_view, Schema, SchemaView};
use crate::commands::{split_words, words_from};
use crate::sql::texts;
use crate::text::{chars_of, same_text, string_of};
use crate::walk::page_of;

verus! {

/// One line of the header's text: a label, a number and a line feed.
pub open spec fn number_line(label: Seq<char>, n: nat) -> Seq<char> {
    label + natural_text(n) + seq!['\n']
}

/// The name of a text encoding by its number.
pub open spec fn encoding_name(n: u32) -> Seq<char> {
    if n == 1 {
        "1 (utf8)"@
    } else if n == 2 {
        "2 (utf16le)"@
    } else if n == 3 {
        "3 (utf16be)"@
    } else {
        "unknown"@
    }
}

/// The text that describes a database file: one line for each field of the
/// database header that is shown, read at its place in the file; then the
/// number of cells on the first page as the number of tables; then the lines
/// of what is not counted.
pub open spec fn info_text(file: Seq<u8>) -> Seq<char> {
    let tables = match page_of(file, 1) {
        Ok(first) => first.header.cell_count as nat,
        Err(_) => 0,
    };
    number_line("database page size:  "@, u16_at(file, 16) as nat) + number_line(
        "write format:        "@,
        file[18] as nat,
    ) + number_line("read format:         "@, file[19] as nat) + number_line(
        "reserved bytes:      "@,
        file[20] as nat,
    ) + number_line("file change counter: "@, u32_at(file, 24) as nat) + number_line(
        "database page count: "@,
        u32_at(file, 28) as nat,
    ) + number_line("freelist page count: "@, u32_at(file, 36) as nat) + number_line(
        "schema cookie:       "@,
        u32_at(file, 40) as nat,
    ) + number_line("schema format:       "@, u32_at(file, 44) as nat) + number_line(
        "default cache size:  "@,
        u32_at(file, 48) as nat,
    ) + number_line("autovacuum top root: "@, u32_at(file, 52) as nat) + number_line(
        "incremental vacuum:  "@,
        u32_at(file, 64) as nat,
    ) + "text encoding:       "@ + encoding_name(u32_at(file, 56)) + seq!['\n'] + number_line(
        "user version:        "@,
        u32_at(file, 60) as nat,
    ) + number_line("application id:      "@, u32_at(file, 68) as nat) + number_line(
        "software version:    "@,
        u32_at(file, 96) as nat,
    ) + number_line("number of tables:    "@, tables) + "number of indexes:   ?\n"@
        + "number of triggers:  ?\n"@ + "number of views:     ?\n"@ + "schema size:         ?\n"@
        + "data version:        ?\n"@
}

/// Appends a label, a number and a line feed.
fn push_line(out: &mut String, label: &str, n: u64)
    ensures
        final(out)@ == old(out)@ + number_line(label@, n as nat),
{
    out.append(label);
    let mut digits: Vec<char> = Vec::new();
    push_natural(n, &mut digits);
    digits.push('\n');
    let tail = string_of(digits.as_slice());
    out.append(tail.as_str());
    assert(final(out)@ =~= old(out)@ + number_line(label@, n as nat));
}

impl Database {
    /// The text that describes the database.
    pub fn to_string(&self) -> (r: String)
        ensures
            r@ == info_text(self.bytes()),
    {
        let header = self.header();
        let first = self.first_page().header;
        let mut out = String::new();
        push_line(&mut out, "database page size:  ", header.page_size as u64);
        push_line(&mut out, "write format:        ", header.file_format_write_version as u64);
        push_line(&mut out, "read format:         ", header.file_format_read_version as u64);
        push_line(&mut out, "reserved bytes:      ", header.reserved_space as u64);
        push_line(&mut out, "file change counter: ", header.file_change_counter as u64);
        push_line(&mut out, "database page count: ", header.database_size as u64);
        push_line(&mut out, "freelist page count: ", header.total_freelist_pages as u64);
        push_line(&mut out, "schema cookie:       ", header.schema_cookie as u64);
        push_line(&mut out, "schema format:       ", header.schema_format_number as u64);
        push_line(&mut out, "default cache size:  ", header.default_page_cache_size as u64);
        push_line(&mut out, "autovacuum top root: ", header.largest_root_btree_page_number as u64);
        push_line(&mut out, "incremental vacuum:  ", header.incremental_vacuum_mode as u64);
        out.append("text encoding:       ");
        let encoding = header.database_text_encoding;
        if encoding == 1 {
            out.append("1 (utf8)");
        } else if encoding == 2 {
            out.append("2 (utf16le)");
        } else if encoding == 3 {
            out.append("3 (utf16be)");
        } else {
            out.append("unknown");
        }
        let feed: [char; 1] = ['\n'];
        let feed_text = string_of(&feed);
        out.append(feed_text.as_str());
        push_line(&mut out, "user version:        ", header.user_version as u64);
        push_line(&mut out, "application id:      ", header.application_id as u64);
        push_line(&mut out, "software version:    ", header.sqlite_version_number as u64);
        push_line(&mut out, "number of tables:    ", first.cell_count as u64);
        out.append("number of indexes:   ?\n");
        out.append("number of triggers:  ?\n");
        out.append("number of views:     ?\n");
        out.append("schema size:         ?\n");
        out.append("data version:        ?\n");
        assert(out@ =~= info_text(self.bytes()));
        out
    }
}

/// The names of the entries other than `sqlite_sequence`, in order, with a
/// space between them.
pub open spec fn names_line(entries: Seq<SchemaView>) -> Seq<char>
    decreases entries.len(),
{
    if entries.len() == 0 {
        Seq::empty()
    } else {
        let front = names_line(entries.drop_last());
        if entries.last().name == "sqlite_sequence"@ {
            front
        } else if front.len() == 0 && shown_before(entries.drop_last()) == 0 {
            entries.last().name
        } else {
            front + seq![' '] + entries.last().name
        }
    }
}

/// The number of entries that are shown: those not named `sqlite_sequence`.
pub open spec fn shown_before(entries: Seq<SchemaView>) -> nat
    decreases entries.len(),
{
    if entries.len() == 0 {
        0
    } else if entries.last().name == "sqlite_sequence"@ {
        shown_before(entries.drop_last())
    } else {
        shown_before(entries.drop_last()) + 1
    }
}

/// The names of the catalogue's entries on one line, without the sequence
/// table that the database keeps for itself.
pub fn table_names(schemas: &Vec<Schema>) -> (r: String)
    ensures
        r@ == names_line(schemas_view(schemas@)),
{
    let ghost all = schemas_view(schemas@);
    let mut out = String::new();
    let mut shown: usize = 0;
    let mut i: usize = 0;
    assert(all.take(0) =~= Seq::<SchemaView>::empty());
    while i < schemas.len()
        invariant
            i <= schemas@.len(),
            all == schemas_view(schemas@),
            out@ == names_line(all.take(i as int)),
            shown == shown_before(all.take(i as int)),
            shown <= i,
        decreases schemas@.len() - i,
    {
        proof {
            let next = all.take(i + 1);
            assert(next.drop_last() =~= all.take(i as int));
            assert(next.last() == schemas@[i as int]@);
        }
        if !same_text(schemas[i].name.as_str(), "sqlite_sequence") {
            if shown > 0 || out.as_str().unicode_len() > 0 {
                let gap: [char; 1] = [' '];
                let gap_text = string_of(&gap);
                out.append(gap_text.as_str());
                assert(gap_text@ =~= seq![' ']);
            }
            out.append(schemas[i].name.as_str());
            shown += 1;
        }
        i += 1;
    }
    assert(all.take(i as int) =~= all);
    out
}

/// What a dot command asks to be shown.
#[derive(Debug, PartialEq, Eq)]
pub enum DotOutput {
    /// The text that describes the database.
    Info(String),
    /// The names of the catalogue's entries on one line.
    Tables(String),
    /// The catalogue's entries.
    Schemas(Vec<Schema>),
    /// Nothing: the command is not known.
    Unknown,
}

/// What a [`DotOutput`] holds.
pub enum DotOutputView {
    Info(Seq<char>),
    Tables(Seq<char>),
    Schemas(Seq<SchemaView>),
    Unknown,
}

impl View for DotOutput {
    type V = DotOutputView;

    open spec fn view(&self) -> DotOutputView {
        match self {
            DotOutput::Info(text) => DotOutputView::Info(text@),
            DotOutput::Tables(line) => DotOutputView::Tables(line@),
            DotOutput::Schemas(entries) => DotOutputView::Schemas(schemas_view(entries@)),
            DotOutput::Unknown => DotOutputView::Unknown,
        }
    }
}

/// What a dot command shows of a file with the given catalogue entries. The
/// command is one word: `.dbinfo`, `.tables` or `.schemas`.
pub open spec fn dot_output(command: Seq<char>, file: Seq<u8>, entries: Seq<SchemaView>)
    -> DotOutputView {
    let words = words_from(command, 0);
    if words.len() == 1 && words[0] == ".dbinfo"@ {
        DotOutputView::Info(info_text(file))
    } else if words.len() == 1 && words[0] == ".tables"@ {
        DotOutputView::Tables(names_line(entries))
    } else if words.len() == 1 && words[0] == ".schemas"@ {
        DotOutputView::Schemas(entries)
    } else {
        DotOutputView::Unknown
    }
}

/// Answers a dot command on a database.
pub fn handle_dot_commands(command: &str, db: &Database) -> (r: DotOutput)
    ensures
        r@ == dot_output(command@, db.bytes(), db.entries()),
{
    let chars = chars_of(command);
    let words = split_words(chars.as_slice());
    if words.len() != 1 {
        return DotOutput::Unknown;
    }
    assert(texts(words@)[0] == words@[0]@);
    let word = words[0].as_str();
    if same_text(word, ".dbinfo") {
        DotOutput::Info(db.to_string())
    } else if same_text(word, ".tables") {
        DotOutput::Tables(table_names(&db.get_schemas_vec()))
    } else if same_text(word, ".schemas") {
        DotOutput::Schemas(db.get_schemas_vec())
    } else {
        DotOutput::Unknown
    }
}

} // verus!
