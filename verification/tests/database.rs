use sqlite_reader::conditions::DoubleLiterals;
use sqlite_reader::db::{Database, Search, DEPTH_LIMIT};
use sqlite_reader::error::Error;
use sqlite_reader::info::{handle_dot_commands, table_names, DotOutput};
use sqlite_reader::pages::PageKind;
use sqlite_reader::query::{cell_text, find_table_index, project, run, truncate, Selection};
use sqlite_reader::schemas::{Catalogue, Schema, SchemaType};
use sqlite_reader::sql::{Condition, Select, SelectColumns};
use sqlite_reader::tables::{CellType, Column, Table};
use sqlite_reader::value::Value;

enum V<'a> {
    Null,
    Int(i64),
    Text(&'a str),
    Real(f64),
    Blob(&'a [u8]),
}

fn varint(n: u64) -> Vec<u8> {
    if n >> 56 != 0 {
        let mut out = vec![0u8; 9];
        let mut high = n >> 8;
        for i in (0..8).rev() {
            out[i] = 0x80 | (high & 0x7f) as u8;
            high >>= 7;
        }
        out[8] = n as u8;
        return out;
    }
    let mut groups = vec![(n & 0x7f) as u8];
    let mut rest = n >> 7;
    while rest != 0 {
        groups.push(0x80 | (rest & 0x7f) as u8);
        rest >>= 7;
    }
    groups.reverse();
    groups
}

fn record(values: &[V]) -> Vec<u8> {
    let mut serials = Vec::new();
    let mut body = Vec::new();
    for v in values {
        match v {
            V::Null => serials.extend(varint(0)),
            V::Int(0) => serials.extend(varint(8)),
            V::Int(1) => serials.extend(varint(9)),
            V::Int(n) => {
                let bytes = n.to_be_bytes();
                let (serial, width) = if *n >= -128 && *n <= 127 {
                    (1, 1)
                } else if *n >= -32768 && *n <= 32767 {
                    (2, 2)
                } else if *n >= -(1 << 23) && *n < (1 << 23) {
                    (3, 3)
                } else if *n >= -(1 << 31) && *n < (1 << 31) {
                    (4, 4)
                } else if *n >= -(1 << 47) && *n < (1 << 47) {
                    (5, 6)
                } else {
                    (6, 8)
                };
                serials.extend(varint(serial));
                body.extend_from_slice(&bytes[8 - width..]);
            }
            V::Text(s) => {
                serials.extend(varint(13 + 2 * s.len() as u64));
                body.extend_from_slice(s.as_bytes());
            }
            V::Real(x) => {
                serials.extend(varint(7));
                body.extend_from_slice(&x.to_be_bytes());
            }
            V::Blob(b) => {
                serials.extend(varint(12 + 2 * b.len() as u64));
                body.extend_from_slice(b);
            }
        }
    }
    let mut header_len = serials.len() as u64 + 1;
    if varint(header_len).len() > 1 {
        header_len += 1;
    }
    let mut out = varint(header_len);
    out.extend(serials);
    out.extend(body);
    out
}

fn table_leaf_cell(row_id: u64, record: &[u8]) -> Vec<u8> {
    let mut out = varint(record.len() as u64);
    out.extend(varint(row_id));
    out.extend_from_slice(record);
    out
}

fn table_interior_cell(left: u32, row_id: u64) -> Vec<u8> {
    let mut out = left.to_be_bytes().to_vec();
    out.extend(varint(row_id));
    out
}

fn index_leaf_cell(record: &[u8]) -> Vec<u8> {
    let mut out = varint(record.len() as u64);
    out.extend_from_slice(record);
    out
}

fn index_interior_cell(left: u32, record: &[u8]) -> Vec<u8> {
    let mut out = left.to_be_bytes().to_vec();
    out.extend(varint(record.len() as u64));
    out.extend_from_slice(record);
    out
}

/// A page of `size` bytes; on the first page the B-tree header stands
/// behind the database header.
fn page(size: usize, first: bool, kind: u8, cells: &[Vec<u8>], rightmost: u32) -> Vec<u8> {
    let mut data = vec![0u8; size];
    let base = if first { 100 } else { 0 };
    let interior = kind == 2 || kind == 5;
    let mut at = size;
    let mut pointers = Vec::new();
    for cell in cells {
        at -= cell.len();
        data[at..at + cell.len()].copy_from_slice(cell);
        pointers.push(at as u16);
    }
    data[base] = kind;
    data[base + 3..base + 5].copy_from_slice(&(cells.len() as u16).to_be_bytes());
    data[base + 5..base + 7].copy_from_slice(&(at as u16).to_be_bytes());
    let mut array = base + 8;
    if interior {
        data[base + 8..base + 12].copy_from_slice(&rightmost.to_be_bytes());
        array += 4;
    }
    assert!(array + 2 * pointers.len() <= at, "the page is full");
    for (i, p) in pointers.iter().enumerate() {
        data[array + 2 * i..array + 2 * i + 2].copy_from_slice(&p.to_be_bytes());
    }
    data
}

fn file(size: u16, mut pages: Vec<Vec<u8>>) -> Vec<u8> {
    let count = pages.len() as u32;
    let first = &mut pages[0];
    first[..16].copy_from_slice(b"SQLite format 3\0");
    first[16..18].copy_from_slice(&size.to_be_bytes());
    first[18] = 1;
    first[19] = 1;
    first[21] = 64;
    first[22] = 32;
    first[23] = 32;
    first[24..28].copy_from_slice(&5u32.to_be_bytes());
    first[28..32].copy_from_slice(&count.to_be_bytes());
    first[40..44].copy_from_slice(&2u32.to_be_bytes());
    first[44..48].copy_from_slice(&4u32.to_be_bytes());
    first[56..60].copy_from_slice(&1u32.to_be_bytes());
    first[92..96].copy_from_slice(&5u32.to_be_bytes());
    first[96..100].copy_from_slice(&3_045_000u32.to_be_bytes());
    pages.concat()
}

fn schema_row(row_id: u64, kind: &str, name: &str, table: &str, root: i64, sql: &str) -> Vec<u8> {
    table_leaf_cell(
        row_id,
        &record(&[V::Text(kind), V::Text(name), V::Text(table), V::Int(root), V::Text(sql)]),
    )
}

const APPLES_SQL: &str =
    "CREATE TABLE apples\n(\n\tid integer primary key autoincrement,\n\tname text,\n\tcolor text\n)";

fn apples() -> Database {
    let size = 512;
    let schema = page(
        size,
        true,
        13,
        &[
            schema_row(1, "table", "apples", "apples", 2, APPLES_SQL),
            schema_row(
                2,
                "table",
                "sqlite_sequence",
                "sqlite_sequence",
                3,
                "CREATE TABLE sqlite_sequence(name,seq)",
            ),
        ],
        0,
    );
    let rows = page(
        size,
        false,
        13,
        &[
            table_leaf_cell(1, &record(&[V::Null, V::Text("Granny Smith"), V::Text("Light Green")])),
            table_leaf_cell(2, &record(&[V::Null, V::Text("Fuji"), V::Text("Red")])),
            table_leaf_cell(3, &record(&[V::Null, V::Text("Honeycrisp"), V::Text("Blush Red")])),
        ],
        0,
    );
    let sequence = page(
        size,
        false,
        13,
        &[table_leaf_cell(1, &record(&[V::Text("apples"), V::Int(3)]))],
        0,
    );
    Database::new(file(size as u16, vec![schema, rows, sequence])).unwrap()
}

fn doubles_for(conds: &[Condition]) -> Vec<DoubleLiterals> {
    let read = |s: &String| s.parse::<f64>().ok().map(f64::to_bits);
    conds
        .iter()
        .map(|c| match c {
            Condition::Between(_, from, to) => DoubleLiterals { first: read(from), second: read(to) },
            other => DoubleLiterals { first: read(other.unbox().1), second: None },
        })
        .collect()
}

fn select(db: &Database, text: &str) -> Result<Selection, Error> {
    let stmt = Select::from_str(text)?;
    let doubles = doubles_for(&stmt.conds);
    run(stmt, db, doubles)
}

fn shown(db: &Database, text: &str) -> Vec<Vec<String>> {
    let found = select(db, text).unwrap();
    project(&found.rows, &found.columns)
}

fn texts(rows: &[&[&str]]) -> Vec<Vec<String>> {
    rows.iter().map(|r| r.iter().map(|s| s.to_string()).collect()).collect()
}

#[test]
fn apples_names_and_colors_in_insertion_order() {
    let db = apples();
    assert_eq!(
        shown(&db, "SELECT name, color FROM apples"),
        texts(&[
            &["Granny Smith", "Light Green"],
            &["Fuji", "Red"],
            &["Honeycrisp", "Blush Red"],
        ])
    );
    let lines: Vec<String> =
        shown(&db, "SELECT name, color FROM apples").iter().map(|r| r.join("|")).collect();
    assert_eq!(lines, vec!["Granny Smith|Light Green", "Fuji|Red", "Honeycrisp|Blush Red"]);
}

#[test]
fn apples_are_counted() {
    let db = apples();
    let found = select(&db, "SELECT count(*) FROM apples").unwrap();
    assert_eq!(found.count, Some(3));
    assert!(found.rows.is_empty());
    assert!(found.columns.is_empty());
}

#[test]
fn the_red_apple_is_fuji() {
    let db = apples();
    assert_eq!(shown(&db, "SELECT name FROM apples WHERE color = 'Red'"), texts(&[&["Fuji"]]));
}

#[test]
fn a_name_that_no_apple_has_gives_no_rows() {
    let db = apples();
    let found = select(&db, "SELECT * FROM apples WHERE name = 'nonexistent'").unwrap();
    assert!(found.rows.is_empty());
    assert_eq!(found.count, None);
    assert_eq!(found.columns.len(), 3);
}

#[test]
fn the_tables_of_apples() {
    let db = apples();
    assert_eq!(table_names(&db.get_schemas_vec()), "apples");
    assert_eq!(table_names(&vec![]), "");
    let entry = |name: &str| Schema {
        stype: SchemaType::Table,
        name: name.to_string(),
        table_name: name.to_string(),
        rootpage: 2,
        sql: String::new(),
    };
    assert_eq!(
        table_names(&vec![entry("sqlite_sequence"), entry("a"), entry(""), entry("b")]),
        "a  b"
    );
    assert_eq!(table_names(&vec![entry(""), entry("sqlite_sequence"), entry("b")]), " b");
}

#[test]
fn row_ids_stand_in_for_null_keys() {
    let db = apples();
    let found = select(&db, "SELECT * FROM apples").unwrap();
    assert_eq!(
        found.rows,
        vec![
            vec![
                Value::Integer(1),
                Value::Text("Granny Smith".to_string()),
                Value::Text("Light Green".to_string()),
            ],
            vec![Value::Integer(2), Value::Text("Fuji".to_string()), Value::Text("Red".to_string())],
            vec![
                Value::Integer(3),
                Value::Text("Honeycrisp".to_string()),
                Value::Text("Blush Red".to_string()),
            ],
        ]
    );
    let names: Vec<&str> = found.columns.iter().map(|c| c.name.as_str()).collect();
    assert_eq!(names, vec!["id", "name", "color"]);
}

#[test]
fn the_count_is_the_number_of_rows_on_one_page() {
    let db = apples();
    let counted = select(&db, "select count(*) from apples").unwrap();
    let all = select(&db, "select * from apples").unwrap();
    assert_eq!(counted.count, Some(all.rows.len() as u32));
}

#[test]
fn projecting_after_the_conditions_is_projecting_the_statement() {
    let db = apples();
    for conds in ["", " where id >= 2", " where color = 'Red' and id < 3", " where id between 1 and 2"] {
        let named = select(&db, &format!("select color, id from apples{}", conds)).unwrap();
        let all = select(&db, &format!("select * from apples{}", conds)).unwrap();
        assert_eq!(named.rows, all.rows);
        assert_eq!(project(&named.rows, &named.columns), project(&all.rows, &named.columns));
    }
    assert_eq!(
        shown(&db, "select color, id from apples where id >= 2"),
        texts(&[&["Red", "2"], &["Blush Red", "3"]])
    );
}

#[test]
fn every_condition_must_hold() {
    let db = apples();
    let ids = |text: &str| -> Vec<String> {
        shown(&db, text).into_iter().map(|r| r[0].clone()).collect()
    };
    assert_eq!(ids("select id from apples where id > 1"), vec!["2", "3"]);
    assert_eq!(ids("select id from apples where id >= 1 and id <= 2"), vec!["1", "2"]);
    assert_eq!(ids("select id from apples where id >= 1 or id <= 2"), vec!["1", "2"]);
    assert_eq!(ids("select id from apples where id != 2"), vec!["1", "3"]);
    assert_eq!(ids("select id from apples where id < 3 and name > 'G'"), vec!["1"]);
    assert_eq!(ids("select id from apples where id between 2 and 9"), vec!["2", "3"]);
    assert_eq!(ids("select id from apples where name between 'G' and 'H'"), vec!["1"]);
    assert_eq!(ids("select id from apples where id = 2 and id = 3"), Vec::<String>::new());
    assert_eq!(ids("select id from apples where id = x"), Vec::<String>::new());
    assert_eq!(ids("select id from apples where missing = 1"), Vec::<String>::new());
    assert_eq!(ids("select id from apples where"), vec!["1", "2", "3"]);
}

#[test]
fn names_that_the_table_does_not_have_are_passed_over() {
    let db = apples();
    assert_eq!(
        shown(&db, "select nothing, name, none from apples where id = 2"),
        texts(&[&["Fuji"]])
    );
}

#[test]
fn statements_that_fail() {
    let db = apples();
    assert_eq!(
        select(&db, "select * from pears").err(),
        Some(Error::NoSuchTable("pears".to_string()))
    );
    assert_eq!(
        select(&db, "select * from sqlite_sequence").err(),
        Some(Error::MalformedDDL("CREATE TABLE sqlite_sequence(name,seq)".to_string()))
    );
    assert_eq!(
        select(&db, "select everything").err(),
        Some(Error::MalformedSelect("select everything".to_string()))
    );
}

#[test]
fn the_catalogue_of_apples() {
    let db = apples();
    let schemas = db.get_schemas();
    assert_eq!(schemas.list().len(), 2);
    let entry = schemas.lookup("apples").unwrap();
    assert_eq!(
        entry,
        &Schema {
            stype: SchemaType::Table,
            name: "apples".to_string(),
            table_name: "apples".to_string(),
            rootpage: 2,
            sql: APPLES_SQL.to_string(),
        }
    );
    assert_eq!(schemas.lookup("pears"), None);
    assert!(schemas.indexes_on("apples").is_empty());
    assert_eq!(schemas.entries, db.get_schemas_vec());
}

#[test]
fn the_later_entry_of_a_name_is_found() {
    let entry = |stype, name: &str, table: &str, rootpage| Schema {
        stype,
        name: name.to_string(),
        table_name: table.to_string(),
        rootpage,
        sql: String::new(),
    };
    let schemas = Catalogue {
        entries: vec![
            entry(SchemaType::Table, "t", "t", 2),
            entry(SchemaType::Index, "i", "t", 3),
            entry(SchemaType::Index, "j", "u", 4),
            entry(SchemaType::Table, "t", "t", 5),
            entry(SchemaType::Index, "k", "t", 6),
        ],
    };
    assert_eq!(schemas.lookup("t").unwrap().rootpage, 5);
    let roots: Vec<u64> = schemas.indexes_on("t").iter().map(|s| s.rootpage).collect();
    assert_eq!(roots, vec![3, 6]);
}

#[test]
fn rows_that_stand_for_no_entry() {
    let row = |kind: &str| {
        vec![
            Value::Text(kind.to_string()),
            Value::Text("n".to_string()),
            Value::Text("t".to_string()),
            Value::Integer(7),
            Value::Text("sql".to_string()),
        ]
    };
    for (kind, stype) in [
        ("table", SchemaType::Table),
        ("index", SchemaType::Index),
        ("view", SchemaType::View),
        ("trigger", SchemaType::Trigger),
    ] {
        let entry = Schema::new(row(kind)).unwrap();
        assert_eq!(entry.stype, stype);
        assert_eq!(entry.name, "n");
        assert_eq!(entry.table_name, "t");
        assert_eq!(entry.rootpage, 7);
        assert_eq!(entry.sql, "sql");
    }
    assert_eq!(Schema::new(row("Table")), Err(Error::MalformedRecord));
    assert_eq!(Schema::new(row("")), Err(Error::MalformedRecord));
    assert_eq!(Schema::new(row("table")[..4].to_vec()), Err(Error::MalformedRecord));
    assert_eq!(Schema::new(vec![]), Err(Error::MalformedRecord));
    let mut text_root = row("table");
    text_root[3] = Value::Text("12".to_string());
    assert_eq!(Schema::new(text_root).unwrap().rootpage, 12);
}

#[test]
fn the_header_as_text() {
    let db = apples();
    assert_eq!(
        db.to_string(),
        "database page size:  512\n\
         write format:        1\n\
         read format:         1\n\
         reserved bytes:      0\n\
         file change counter: 5\n\
         database page count: 3\n\
         freelist page count: 0\n\
         schema cookie:       2\n\
         schema format:       4\n\
         default cache size:  0\n\
         autovacuum top root: 0\n\
         incremental vacuum:  0\n\
         text encoding:       1 (utf8)\n\
         user version:        0\n\
         application id:      0\n\
         software version:    3045000\n\
         number of tables:    2\n\
         number of indexes:   ?\n\
         number of triggers:  ?\n\
         number of views:     ?\n\
         schema size:         ?\n\
         data version:        ?\n"
    );
    assert_eq!(db.header().page_size, 512);
    assert_eq!(db.first_page().header.cell_count, 2);
}

#[test]
fn text_encodings_by_name() {
    for (code, name) in [(1u32, "1 (utf8)"), (2, "2 (utf16le)"), (3, "3 (utf16be)"), (0, "unknown"), (4, "unknown")] {
        let mut bytes = file(512, vec![page(512, true, 13, &[], 0)]);
        bytes[56..60].copy_from_slice(&code.to_be_bytes());
        let text = Database::new(bytes).unwrap().to_string();
        assert!(text.contains(&format!("text encoding:       {}\n", name)), "{}", text);
    }
}

#[test]
fn files_that_cannot_be_opened() {
    let good = file(512, vec![page(512, true, 13, &[], 0)]);
    assert!(Database::new(good.clone()).is_ok());
    assert_eq!(Database::new(vec![]).err(), Some(Error::MalformedHeader));
    assert_eq!(Database::new(good[..99].to_vec()).err(), Some(Error::MalformedHeader));
    let mut no_text = good.clone();
    no_text[0] = 0xff;
    assert_eq!(Database::new(no_text).err(), Some(Error::MalformedHeader));
    assert_eq!(Database::new(good[..511].to_vec()).err(), Some(Error::InvalidPageNumber(1)));
    let mut kind = good.clone();
    kind[100] = 1;
    assert_eq!(Database::new(kind).err(), Some(Error::UnknownPageKind(1)));
    let mut small = good.clone();
    small[16..18].copy_from_slice(&64u16.to_be_bytes());
    assert_eq!(Database::new(small).err(), Some(Error::MalformedBtreeHeader));
    let mut none = good.clone();
    none[16..18].copy_from_slice(&0u16.to_be_bytes());
    assert_eq!(Database::new(none).err(), Some(Error::MalformedBtreeHeader));
    let mut tight = good[..111].to_vec();
    tight[16..18].copy_from_slice(&111u16.to_be_bytes());
    assert_eq!(Database::new(tight).err(), Some(Error::MalformedBtreeHeader));
    let mut enough = good[..112].to_vec();
    enough[16..18].copy_from_slice(&112u16.to_be_bytes());
    assert!(Database::new(enough).is_ok());
}

#[test]
fn pages_by_number() {
    let db = apples();
    let first = db.get_page(1).unwrap();
    assert_eq!(first.page_id, 1);
    assert_eq!(first.data.len(), 512);
    assert_eq!(first.header.kind, PageKind::TableLeaf);
    assert_eq!(first.header.cell_count, 2);
    let second = db.get_page(2).unwrap();
    assert_eq!(second.page_id, 2);
    assert_eq!(second.header.cell_count, 3);
    assert_eq!(second.header.rightmost_pointer, None);
    assert_eq!(second.cells().collect().len(), 3);
    assert_eq!(db.get_page(3).unwrap().cells().collect().len(), 1);
    assert_eq!(db.get_page(0).err(), Some(Error::InvalidPageNumber(0)));
    assert_eq!(db.get_page(4).err(), Some(Error::InvalidPageNumber(4)));
    assert_eq!(db.get_page(u64::MAX).err(), Some(Error::InvalidPageNumber(u64::MAX)));
}

#[test]
fn a_page_that_is_no_btree_page_gives_no_rows() {
    let size = 512;
    let schema = page(size, true, 13, &[schema_row(1, "table", "t", "t", 2, "create table t (a text)")], 0);
    let broken = vec![0u8; size];
    let db = Database::new(file(size as u16, vec![schema, broken])).unwrap();
    assert_eq!(db.get_page(2).err(), Some(Error::UnknownPageKind(0)));
    assert!(select(&db, "select * from t").unwrap().rows.is_empty());
    assert_eq!(select(&db, "select count(*) from t").err(), Some(Error::UnknownPageKind(0)));
}

#[test]
fn a_root_page_outside_the_file_fails() {
    let size = 512;
    let schema = page(
        size,
        true,
        13,
        &[
            schema_row(1, "table", "far", "far", 9, "create table far (a text)"),
            schema_row(2, "table", "zero", "zero", 0, "create table zero (a text)"),
        ],
        0,
    );
    let db = Database::new(file(size as u16, vec![schema])).unwrap();
    assert_eq!(select(&db, "select * from far").err(), Some(Error::InvalidPageNumber(9)));
    assert_eq!(select(&db, "select count(*) from far").err(), Some(Error::InvalidPageNumber(9)));
    assert_eq!(select(&db, "select * from zero").err(), Some(Error::InvalidPageNumber(0)));
    assert_eq!(select(&db, "select count(*) from zero").err(), Some(Error::InvalidPageNumber(0)));
}

fn pet(id: u64, name: &str) -> Vec<u8> {
    table_leaf_cell(id, &record(&[V::Null, V::Text(name)]))
}

fn pets() -> Database {
    let size = 512;
    let schema = page(
        size,
        true,
        13,
        &[schema_row(1, "table", "pets", "pets", 2, "create table pets (id integer primary key, name text)")],
        0,
    );
    let root = page(size, false, 5, &[table_interior_cell(3, 2), table_interior_cell(4, 4)], 5);
    let a = page(size, false, 13, &[pet(1, "ant"), pet(2, "bee")], 0);
    let b = page(size, false, 13, &[pet(3, "cat"), pet(4, "dog")], 0);
    let c = page(size, false, 13, &[pet(5, "eel"), pet(6, "fox")], 0);
    Database::new(file(size as u16, vec![schema, root, a, b, c])).unwrap()
}

fn names(rows: &[Vec<Value>]) -> Vec<String> {
    rows.iter().map(|r| r[1].to_string()).collect()
}

#[test]
fn a_table_of_several_pages_is_walked_child_by_child() {
    let db = pets();
    let all = select(&db, "select * from pets").unwrap();
    assert_eq!(names(&all.rows), vec!["ant", "bee", "cat", "dog", "eel", "fox"]);
    assert_eq!(all.rows[4][0], Value::Integer(5));
    let some = select(&db, "select * from pets where id > 2 and name != 'eel'").unwrap();
    assert_eq!(names(&some.rows), vec!["cat", "dog", "fox"]);
    assert_eq!(select(&db, "select count(*) from pets").unwrap().count, Some(2));
}

fn search(db: &Database, table: &str, pgno: u64, key: Option<&str>, ids: Option<Vec<u64>>) -> Search {
    let schema = db.get_schemas().lookup(table).unwrap().clone();
    Search::new(pgno, key.map(|k| k.to_string()), ids, schema, vec![], vec![])
}

#[test]
fn wanted_row_ids_choose_the_rows() {
    let db = pets();
    let found = db.rows(search(&db, "pets", 2, None, Some(vec![1, 3, 6])));
    assert_eq!(names(&found), vec!["ant", "cat", "fox"]);
    let found = db.rows(search(&db, "pets", 2, None, Some(vec![])));
    assert!(found.is_empty());
    let found = db.rows(search(&db, "pets", 4, None, Some(vec![4, 9])));
    assert_eq!(names(&found), vec!["dog"]);
}

#[test]
fn a_wanted_row_id_on_an_interior_cell_ends_the_walk_with_its_child() {
    let db = pets();
    let found = db.rows(search(&db, "pets", 2, None, Some(vec![1, 4, 5])));
    assert_eq!(names(&found), vec!["dog"]);
    let found = db.rows(search(&db, "pets", 2, None, Some(vec![2, 3])));
    assert_eq!(names(&found), vec!["bee"]);
}

#[test]
fn a_key_chooses_rows_by_their_first_value() {
    let db = pets();
    let found = db.rows(search(&db, "pets", 2, Some("4"), None));
    assert_eq!(names(&found), vec!["dog"]);
    let found = db.rows(search(&db, "pets", 3, Some("4"), None));
    assert!(found.is_empty());
}

#[test]
fn a_walk_goes_no_deeper_than_its_levels() {
    let db = pets();
    let from_root = search(&db, "pets", 2, None, None);
    assert!(db.rows_within(&from_root, 0).is_empty());
    assert!(db.rows_within(&from_root, 1).is_empty());
    assert_eq!(db.rows_within(&from_root, 2).len(), 6);
    assert_eq!(db.rows_within(&from_root, DEPTH_LIMIT).len(), 6);
    assert_eq!(DEPTH_LIMIT, 64);
    let size = 512;
    let schema = page(size, true, 13, &[schema_row(1, "table", "t", "t", 2, "create table t (a text)")], 0);
    let around = page(size, false, 5, &[], 2);
    let db = Database::new(file(size as u16, vec![schema, around])).unwrap();
    assert!(select(&db, "select * from t").unwrap().rows.is_empty());
}

#[test]
fn the_same_search_at_another_page() {
    let db = pets();
    let schema = db.get_schemas().lookup("pets").unwrap().clone();
    let conds = vec![Condition::Eq("name".to_string(), "cat".to_string())];
    let doubles = vec![DoubleLiterals { first: Some(7), second: None }];
    let first =
        Search::new(2, Some("k".to_string()), Some(vec![3, 4]), schema.clone(), conds.clone(), doubles.clone());
    let next = first.next_page(4);
    assert_eq!(next.pgno, 4);
    assert_eq!(next.key, Some("k".to_string()));
    assert_eq!(next.indeces, Some(vec![3, 4]));
    assert_eq!(next.schema, schema);
    assert_eq!(next.conds, conds);
    assert_eq!(next.doubles, doubles);
    assert_eq!(first.pgno, 2);
}

const COLORS: [&str; 6] =
    ["Amber Eyes", "Blue Eyes", "Green Eyes", "Pink Eyes", "Red Eyes", "Yellow Eyes"];

fn eye_color(id: u64) -> &'static str {
    if id % 50 == 0 {
        "Blue Eyes"
    } else if id % 37 == 5 {
        "Pink Eyes"
    } else {
        ["Amber Eyes", "Blue Eyes", "Green Eyes", "Red Eyes", "Yellow Eyes"][(id % 5) as usize]
    }
}

const HEROES_SQL: &str =
    "CREATE TABLE superheroes (id integer primary key autoincrement, name text not null, eye_color text)";

/// A table of 1200 rows on pages of 50 rows under one root, and an index on
/// the eye colour: leaves of 40 entries under one root whose cells each hold
/// the entry that follows the leaf before.
fn superheroes() -> Database {
    let size = 2048usize;
    let rows = 1200u64;
    let per_leaf = 50u64;
    let mut pages: Vec<Vec<u8>> = Vec::new();
    let table_leaves = rows / per_leaf;
    let table_root = 2u32;
    let first_table_leaf = 3u32;
    let index_root = first_table_leaf + table_leaves as u32;
    let first_index_leaf = index_root + 1;

    let mut entries: Vec<(&str, u64)> = (1..=rows).map(|id| (eye_color(id), id)).collect();
    entries.sort();
    assert!(COLORS.iter().all(|c| entries.iter().any(|e| e.0 == *c)));
    let mut index_leaves: Vec<Vec<Vec<u8>>> = Vec::new();
    let mut separators: Vec<Vec<u8>> = Vec::new();
    let mut at = 0;
    while at < entries.len() {
        let end = (at + 40).min(entries.len());
        index_leaves.push(
            entries[at..end]
                .iter()
                .map(|(color, id)| index_leaf_cell(&record(&[V::Text(color), V::Int(*id as i64)])))
                .collect(),
        );
        at = end;
        if at < entries.len() {
            let (color, id) = entries[at];
            separators.push(record(&[V::Text(color), V::Int(id as i64)]));
            at += 1;
        }
    }

    pages.push(page(
        size,
        true,
        13,
        &[
            schema_row(1, "table", "superheroes", "superheroes", table_root as i64, HEROES_SQL),
            schema_row(
                2,
                "index",
                "idx_eye",
                "superheroes",
                index_root as i64,
                "CREATE INDEX idx_eye ON superheroes(eye_color)",
            ),
        ],
        0,
    ));
    let interior: Vec<Vec<u8>> = (0..table_leaves - 1)
        .map(|i| table_interior_cell(first_table_leaf + i as u32, (i + 1) * per_leaf))
        .collect();
    pages.push(page(size, false, 5, &interior, first_table_leaf + table_leaves as u32 - 1));
    for leaf in 0..table_leaves {
        let cells: Vec<Vec<u8>> = (leaf * per_leaf + 1..=(leaf + 1) * per_leaf)
            .map(|id| {
                let name = format!("Hero {}", id);
                table_leaf_cell(id, &record(&[V::Null, V::Text(&name), V::Text(eye_color(id))]))
            })
            .collect();
        pages.push(page(size, false, 13, &cells, 0));
    }
    let cells: Vec<Vec<u8>> = separators
        .iter()
        .enumerate()
        .map(|(i, entry)| index_interior_cell(first_index_leaf + i as u32, entry))
        .collect();
    pages.push(page(size, false, 2, &cells, first_index_leaf + separators.len() as u32));
    for leaf in &index_leaves {
        pages.push(page(size, false, 10, leaf, 0));
    }
    Database::new(file(size as u16, pages)).unwrap()
}

#[test]
fn pink_eyes_are_found_through_the_index() {
    let db = superheroes();
    let schemas = db.get_schemas();
    let table = Table::from_str(HEROES_SQL).unwrap();
    let stmt = Select::from_str("SELECT id, name FROM superheroes WHERE eye_color = 'Pink Eyes'").unwrap();
    let index = find_table_index(&stmt.conds, "superheroes", &table, &schemas);
    assert_eq!(index, Some((27, "Pink Eyes".to_string())));
    assert_eq!(db.get_page(27).unwrap().header.kind, PageKind::IndexInterior);
    assert_eq!(db.get_page(2).unwrap().header.kind, PageKind::TableInterior);

    let expected: Vec<Vec<String>> = (1..=1200u64)
        .filter(|id| eye_color(*id) == "Pink Eyes")
        .map(|id| vec![id.to_string(), format!("Hero {}", id)])
        .collect();
    assert!(expected.len() > 20);
    assert_eq!(shown(&db, "SELECT id, name FROM superheroes WHERE eye_color = 'Pink Eyes'"), expected);
}

#[test]
fn the_index_and_the_table_give_the_same_rows() {
    let db = superheroes();
    let schema = db.get_schemas().lookup("superheroes").unwrap().clone();
    for color in ["Pink Eyes", "No Eyes"] {
        let conds = vec![Condition::Eq("eye_color".to_string(), color.to_string())];
        let through_index = db.rows(Search::new(
            27,
            Some(color.to_string()),
            None,
            schema.clone(),
            conds.clone(),
            doubles_for(&conds),
        ));
        let through_table =
            db.rows(Search::new(2, None, None, schema.clone(), conds.clone(), doubles_for(&conds)));
        let mut a = through_index.clone();
        let mut b = through_table.clone();
        let by_id = |r: &Vec<Value>| r[0].to_u64();
        a.sort_by_key(by_id);
        b.sort_by_key(by_id);
        assert_eq!(a, b, "{}", color);
        assert_eq!(
            through_table.len(),
            (1..=1200u64).filter(|id| eye_color(*id) == color).count(),
            "{}",
            color
        );
    }
}

#[test]
fn a_key_on_many_index_pages_is_followed_over_two_of_them() {
    let db = superheroes();
    let schema = db.get_schemas().lookup("superheroes").unwrap().clone();
    let color = "Green Eyes";
    let conds = vec![Condition::Eq("eye_color".to_string(), color.to_string())];
    let through_index = db.rows(Search::new(
        27,
        Some(color.to_string()),
        None,
        schema.clone(),
        conds.clone(),
        doubles_for(&conds),
    ));
    let through_table = db.rows(Search::new(2, None, None, schema, conds.clone(), doubles_for(&conds)));
    assert!(through_table.len() > 200);
    assert!(!through_index.is_empty());
    assert!(through_index.len() < through_table.len());
    assert!(through_index.iter().all(|r| through_table.contains(r)));
}

#[test]
fn a_search_of_an_index_needs_a_key_and_a_table() {
    let db = superheroes();
    let mut schema = db.get_schemas().lookup("superheroes").unwrap().clone();
    let without_key = Search::new(27, None, None, schema.clone(), vec![], vec![]);
    assert!(db.rows(without_key).is_empty());
    schema.rootpage = 0;
    let without_table = Search::new(27, Some("Pink Eyes".to_string()), None, schema, vec![], vec![]);
    assert!(db.rows(without_table).is_empty());
}

#[test]
fn entries_before_the_first_key_of_an_index_page_are_rows() {
    let db = superheroes();
    let schema = db.get_schemas().lookup("superheroes").unwrap().clone();
    let found = db.rows(Search::new(27, Some("Amber Eyes".to_string()), None, schema, vec![], vec![]));
    assert!(!found.is_empty());
    assert!(found.iter().take(40).all(|r| r.len() == 2 && r[0] == Value::Text("Amber Eyes".to_string())));
}

fn columns() -> Vec<Column> {
    vec![
        Column { idx: 0, name: "id".to_string(), cell_type: CellType::Integer, nullable: false, pk: true },
        Column { idx: 1, name: "name".to_string(), cell_type: CellType::Text, nullable: true, pk: false },
        Column { idx: 2, name: "size".to_string(), cell_type: CellType::Float, nullable: true, pk: false },
        Column { idx: 3, name: "data".to_string(), cell_type: CellType::Blob, nullable: true, pk: false },
        Column { idx: 4, name: "none".to_string(), cell_type: CellType::Null, nullable: true, pk: false },
        Column { idx: 9, name: "far".to_string(), cell_type: CellType::Text, nullable: true, pk: false },
    ]
}

/// Whether the sample row meets a condition written as a column, an
/// operator and one literal, or two around `and`.
fn holds(text: &str) -> bool {
    let words: Vec<String> =
        text.split_whitespace().map(|w| w.trim_matches('\'').to_string()).collect();
    let (c, v) = (words[0].clone(), words[2].clone());
    let cond = match words[1].as_str() {
        "=" => Condition::Eq(c, v),
        "!=" => Condition::Ne(c, v),
        "<" => Condition::Less(c, v),
        "<=" => Condition::LessEq(c, v),
        ">" => Condition::Greater(c, v),
        ">=" => Condition::GreaterEq(c, v),
        "between" => Condition::Between(c, v, words[4].clone()),
        other => panic!("{}", other),
    };
    let stmt = Select { name: "t".to_string(), columns: SelectColumns::All, conds: vec![cond] };
    let row = vec![
        Value::Integer(-5),
        Value::Text("Fuji".to_string()),
        Value::Float(2.5f64.to_bits()),
        Value::Blob(vec![1]),
        Value::Null,
    ];
    stmt.conds[0].eval(&row, &columns(), &doubles_for(&stmt.conds)[0])
}

#[test]
fn conditions_on_integers() {
    assert!(holds("id = -5"));
    assert!(!holds("id = 5"));
    assert!(holds("id != 5"));
    assert!(!holds("id != -5"));
    assert!(holds("id < -4"));
    assert!(!holds("id < -5"));
    assert!(holds("id <= -5"));
    assert!(!holds("id <= -6"));
    assert!(holds("id > -6"));
    assert!(!holds("id > -5"));
    assert!(holds("id >= -5"));
    assert!(!holds("id >= -4"));
    assert!(holds("id between -5 and -5"));
    assert!(holds("id between -9 and 9"));
    assert!(!holds("id between -4 and 9"));
    assert!(!holds("id between -9 and -6"));
    for op in ["=", "!=", "<", "<=", ">", ">="] {
        assert!(!holds(&format!("id {} five", op)));
        assert!(!holds(&format!("id {} 1.5", op)));
        assert!(!holds(&format!("id {} 99999999999999999999", op)));
    }
    assert!(!holds("id between x and 9"));
    assert!(!holds("id between -9 and x"));
}

#[test]
fn conditions_on_texts() {
    assert!(holds("name = Fuji"));
    assert!(holds("name = 'Fuji'"));
    assert!(!holds("name = fuji"));
    assert!(holds("name != fuji"));
    assert!(!holds("name != Fuji"));
    assert!(holds("name < Fujj"));
    assert!(holds("name < Fujii"));
    assert!(!holds("name < Fuji"));
    assert!(holds("name <= Fuji"));
    assert!(!holds("name <= Fuj"));
    assert!(holds("name > Fuj"));
    assert!(holds("name > 9"));
    assert!(!holds("name > Fuji"));
    assert!(holds("name >= Fuji"));
    assert!(!holds("name >= G"));
    assert!(holds("name between F and G"));
    assert!(holds("name between Fuji and Fuji"));
    assert!(!holds("name between G and H"));
    assert!(!holds("name between A and F"));
}

#[test]
fn conditions_on_doubles() {
    assert!(holds("size = 2.5"));
    assert!(holds("size = 2.50"));
    assert!(!holds("size = 2.4"));
    assert!(holds("size != 2.4"));
    assert!(!holds("size != 2.5"));
    assert!(holds("size < 3"));
    assert!(!holds("size < 2.5"));
    assert!(holds("size <= 2.5"));
    assert!(!holds("size <= -3"));
    assert!(holds("size > -3"));
    assert!(!holds("size > 2.5"));
    assert!(holds("size >= 2.5"));
    assert!(!holds("size >= 1e9"));
    assert!(holds("size between 2 and 3"));
    assert!(!holds("size between 3 and 4"));
    assert!(!holds("size between 1 and 2"));
    assert!(!holds("size between x and 3"));
    assert!(!holds("size = x"));
    assert!(!holds("size != x"));
    for op in ["=", "<", "<=", ">", ">="] {
        assert!(!holds(&format!("size {} NaN", op)));
    }
    assert!(holds("size != NaN"));
    assert!(holds("size < inf"));
}

#[test]
fn doubles_are_compared_as_numbers() {
    let samples = [
        0.0f64, -0.0, 1.0, -1.0, 2.5, -2.5, 1e-300, -1e-300, 1e300, -1e300, 5e-324, -5e-324,
        f64::INFINITY, f64::NEG_INFINITY, f64::NAN, 0.1, 0.3,
    ];
    let c = |op: &dyn Fn(&str, &str) -> Condition| op("x", "lit");
    let column = vec![Column {
        idx: 0,
        name: "x".to_string(),
        cell_type: CellType::Float,
        nullable: true,
        pk: false,
    }];
    for a in samples {
        for b in samples {
            let row = vec![Value::Float(a.to_bits())];
            let d = DoubleLiterals { first: Some(b.to_bits()), second: Some(b.to_bits()) };
            let eq = c(&|x, l| Condition::Eq(x.to_string(), l.to_string()));
            let ne = c(&|x, l| Condition::Ne(x.to_string(), l.to_string()));
            let lt = c(&|x, l| Condition::Less(x.to_string(), l.to_string()));
            let le = c(&|x, l| Condition::LessEq(x.to_string(), l.to_string()));
            let gt = c(&|x, l| Condition::Greater(x.to_string(), l.to_string()));
            let ge = c(&|x, l| Condition::GreaterEq(x.to_string(), l.to_string()));
            let between = Condition::Between("x".to_string(), "lit".to_string(), "lit".to_string());
            assert_eq!(eq.eval(&row, &column, &d), a == b, "{} = {}", a, b);
            assert_eq!(ne.eval(&row, &column, &d), a != b, "{} != {}", a, b);
            assert_eq!(lt.eval(&row, &column, &d), a < b, "{} < {}", a, b);
            assert_eq!(le.eval(&row, &column, &d), a <= b, "{} <= {}", a, b);
            assert_eq!(gt.eval(&row, &column, &d), a > b, "{} > {}", a, b);
            assert_eq!(ge.eval(&row, &column, &d), a >= b, "{} >= {}", a, b);
            assert_eq!(between.eval(&row, &column, &d), a >= b && a <= b, "{} ~ {}", a, b);
        }
    }
}

#[test]
fn conditions_on_null_and_blobs() {
    assert!(holds("none = NULL"));
    assert!(!holds("none = null"));
    assert!(!holds("none = 0"));
    for op in ["!=", "<", "<=", ">", ">="] {
        assert!(!holds(&format!("none {} NULL", op)));
        assert!(!holds(&format!("data {} 1", op)));
    }
    assert!(!holds("none between NULL and NULL"));
    assert!(!holds("data = 1"));
    assert!(!holds("data between 0 and 9"));
}

#[test]
fn conditions_on_what_is_not_there() {
    assert!(!holds("missing = 1"));
    assert!(!holds("missing != 1"));
    assert!(!holds("far = x"));
    assert!(!holds("far != x"));
}

fn index_entry(name: &str, table: &str, rootpage: u64, sql: &str) -> Schema {
    Schema {
        stype: SchemaType::Index,
        name: name.to_string(),
        table_name: table.to_string(),
        rootpage,
        sql: sql.to_string(),
    }
}

#[test]
fn the_first_equality_with_an_index_chooses_it() {
    let table = Table { name: "t".to_string(), columns: columns(), key: Some("id".to_string()) };
    let schemas = Catalogue {
        entries: vec![
            Schema {
                stype: SchemaType::Table,
                name: "t".to_string(),
                table_name: "t".to_string(),
                rootpage: 2,
                sql: "create index x on t (name)".to_string(),
            },
            index_entry("other", "u", 3, "create index other on u (name)"),
            index_entry("broken", "t", 4, "create index broken on t (name, size)"),
            index_entry("on_size", "t", 5, "create index on_size on t (size)"),
            index_entry("on_name", "t", 6, "create index on_name on t (name)"),
            index_entry("again", "t", 7, "create index again on t (name)"),
            index_entry("on_gone", "t", 8, "create index on_gone on t (gone)"),
        ],
    };
    let eq = |c: &str, v: &str| Condition::Eq(c.to_string(), v.to_string());
    let find = |conds: Vec<Condition>| find_table_index(&conds, "t", &table, &schemas);
    assert_eq!(find(vec![eq("name", "Fuji")]), Some((6, "Fuji".to_string())));
    assert_eq!(find(vec![eq("id", "1"), eq("size", "2"), eq("name", "3")]), Some((5, "2".to_string())));
    assert_eq!(find(vec![eq("gone", "1")]), None);
    assert_eq!(find(vec![eq("id", "1")]), None);
    assert_eq!(find(vec![]), None);
    assert_eq!(
        find(vec![
            Condition::Greater("name".to_string(), "a".to_string()),
            Condition::Ne("name".to_string(), "b".to_string()),
            Condition::Between("name".to_string(), "c".to_string(), "d".to_string()),
            Condition::LessEq("size".to_string(), "4".to_string()),
        ]),
        None
    );
    assert_eq!(
        find(vec![Condition::Less("name".to_string(), "a".to_string()), eq("name", "b")]),
        Some((6, "b".to_string()))
    );
    assert_eq!(find_table_index(&vec![eq("name", "x")], "u", &table, &schemas), Some((3, "x".to_string())));
    assert_eq!(find_table_index(&vec![eq("name", "x")], "v", &table, &schemas), None);
}

#[test]
fn the_columns_of_a_statement() {
    let table = Table { name: "t".to_string(), columns: columns(), key: None };
    let pick = |columns: SelectColumns| -> Vec<String> {
        let sel = Select { name: "t".to_string(), columns, conds: vec![] };
        table.select(&sel).iter().map(|c| c.name.clone()).collect()
    };
    assert_eq!(pick(SelectColumns::All), vec!["id", "name", "size", "data", "none", "far"]);
    assert_eq!(pick(SelectColumns::Count), Vec::<String>::new());
    assert_eq!(
        pick(SelectColumns::Columns(vec![
            "size".to_string(),
            "gone".to_string(),
            "id".to_string(),
            "size".to_string(),
        ])),
        vec!["size", "id", "size"]
    );
    assert_eq!(pick(SelectColumns::Columns(vec![])), Vec::<String>::new());
}

#[test]
fn all_columns_come_in_the_order_of_their_places() {
    let column = |idx: usize, name: &str| Column {
        idx,
        name: name.to_string(),
        cell_type: CellType::Text,
        nullable: true,
        pk: false,
    };
    let table = Table {
        name: "t".to_string(),
        columns: vec![
            column(3, "d"),
            column(1, "x"),
            column(0, "a"),
            column(2, "c"),
            column(1, "b"),
            column(7, "x"),
            column(2, "b2"),
        ],
        key: None,
    };
    let sel = Select { name: "t".to_string(), columns: SelectColumns::All, conds: vec![] };
    let found: Vec<(usize, String)> =
        table.select(&sel).iter().map(|c| (c.idx, c.name.clone())).collect();
    let expected: Vec<(usize, String)> = [(0, "a"), (1, "b"), (2, "c"), (2, "b2"), (3, "d"), (7, "x")]
        .iter()
        .map(|(i, n)| (*i, n.to_string()))
        .collect();
    assert_eq!(found, expected);
    let empty = Table { name: "t".to_string(), columns: vec![], key: None };
    assert!(empty.select(&sel).is_empty());
}

#[test]
fn the_later_column_of_a_name_stands_for_both() {
    let table = Table::from_str("create table t (a text, b text, a integer, c text, b blob)").unwrap();
    let sel = |columns| Select { name: "t".to_string(), columns, conds: vec![] };
    let all: Vec<(usize, CellType)> =
        table.select(&sel(SelectColumns::All)).iter().map(|c| (c.idx, c.cell_type)).collect();
    assert_eq!(all, vec![(2, CellType::Integer), (3, CellType::Text), (4, CellType::Blob)]);
    let named = table.select(&sel(SelectColumns::Columns(vec!["b".to_string(), "a".to_string()])));
    assert_eq!(named.iter().map(|c| c.idx).collect::<Vec<_>>(), vec![4, 2]);
}

#[test]
fn texts_are_cut_off_behind_their_characters() {
    assert_eq!(truncate("Honeycrisp apple", 10), "Honeycrisp");
    assert_eq!(truncate("Fuji", 10), "Fuji");
    assert_eq!(truncate("Fuji", 4), "Fuji");
    assert_eq!(truncate("Fuji", 0), "");
    assert_eq!(truncate("", 3), "");
    assert_eq!(truncate("Grüße aus Köln", 5), "Grüße");
}

#[test]
fn wide_tables_show_short_texts() {
    let long = Value::Text("Honeycrisp apple".to_string());
    assert_eq!(cell_text(&long, 5), "Honeycrisp...");
    assert_eq!(cell_text(&long, 4), "Honeycrisp apple");
    assert_eq!(cell_text(&Value::Text("Honeycrisp".to_string()), 5), "Honeycrisp");
    assert_eq!(cell_text(&Value::Text("Honeycrisp!".to_string()), 5), "Honeycrisp...");
    assert_eq!(cell_text(&Value::Text("Grüße Köln".to_string()), 5), "Grüße Köln...");
    assert_eq!(cell_text(&Value::Integer(-12_345_678_901), 9), "-123456789...");
    assert_eq!(cell_text(&Value::Null, 9), "");
    assert_eq!(cell_text(&Value::Blob(vec![100, 100, 100]), 9), "[100, 100,...");
}

#[test]
fn rows_are_projected_onto_columns() {
    let rows = vec![
        vec![Value::Integer(1), Value::Text("a long name it is".to_string())],
        vec![Value::Integer(2)],
    ];
    let some = columns()[..2].to_vec();
    assert_eq!(project(&rows, &some), texts(&[&["1", "a long name it is"], &["2", ""]]));
    let mut wide = columns();
    wide.swap(0, 1);
    assert_eq!(
        project(&rows, &wide),
        texts(&[&["a long nam...", "1", "", "", "", ""], &["", "2", "", "", "", ""]])
    );
    assert_eq!(project(&rows, &vec![]), texts(&[&[], &[]]));
    assert_eq!(project(&vec![], &some), Vec::<Vec<String>>::new());
}

#[test]
fn dot_commands_on_apples() {
    let db = apples();
    assert_eq!(handle_dot_commands(".tables", &db), DotOutput::Tables("apples".to_string()));
    assert_eq!(handle_dot_commands(" .tables\n", &db), DotOutput::Tables("apples".to_string()));
    assert_eq!(handle_dot_commands(".dbinfo", &db), DotOutput::Info(db.to_string()));
    assert_eq!(handle_dot_commands(".schemas", &db), DotOutput::Schemas(db.get_schemas_vec()));
    assert_eq!(handle_dot_commands(".schema", &db), DotOutput::Unknown);
    assert_eq!(handle_dot_commands(".tables all", &db), DotOutput::Unknown);
    assert_eq!(handle_dot_commands("", &db), DotOutput::Unknown);
    assert_eq!(handle_dot_commands(".TABLES", &db), DotOutput::Unknown);
}
