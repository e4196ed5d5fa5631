use sqlite_reader::bytes::{be_integer, be_unsigned, to_signed, to_unsigned};
use sqlite_reader::cells::Cell;
use sqlite_reader::db_header::{parse_db_header, DatabaseHeader};
use sqlite_reader::decimal::{read_i64, read_u64};
use sqlite_reader::error::Error;
use sqlite_reader::pages::{parse_btree_header, BtreeHeader, Page, PageKind};
use sqlite_reader::payload::Payload;
use sqlite_reader::records::RecordCode;
use sqlite_reader::ordering::compare_bytes;
use sqlite_reader::text::{compare, same_text, Order};
use sqlite_reader::value::{double_u64, Value};

fn chars(s: &str) -> Vec<char> {
    s.chars().collect()
}

fn payload(bytes: &[u8]) -> Payload<'_> {
    Payload { size: bytes.len() as u64, payload: bytes, overflow: None }
}

#[test]
fn big_endian_numbers() {
    assert_eq!(be_unsigned(&[0x01, 0x02, 0x03], 2), 0x0102);
    assert_eq!(be_unsigned(&[0xff; 8], 8), u64::MAX);
    assert_eq!(be_unsigned(&[7], 0), 0);
    assert_eq!(be_integer(&[0x7f], 1), 127);
    assert_eq!(be_integer(&[0x80], 1), -128);
    assert_eq!(be_integer(&[0xff, 0xfe], 2), -2);
    assert_eq!(be_integer(&[0x80, 0x00, 0x00], 3), -8_388_608);
    assert_eq!(be_integer(&[0x00, 0x01, 0x00, 0x00], 4), 65_536);
    assert_eq!(be_integer(&[0xff, 0xff, 0xff, 0xff, 0xff, 0xfe], 6), -2);
    assert_eq!(be_integer(&[0x80, 0, 0, 0, 0, 0], 6), -(1i64 << 47));
    assert_eq!(be_integer(&[0x80, 0, 0, 0, 0, 0, 0, 0], 8), i64::MIN);
    assert_eq!(be_integer(&[0x7f, 0xff, 0xff, 0xff, 0xff, 0xff, 0xff, 0xff], 8), i64::MAX);
}

#[test]
fn reinterpreting_sixty_four_bits() {
    assert_eq!(to_signed(5), 5);
    assert_eq!(to_signed(u64::MAX), -1);
    assert_eq!(to_signed(1 << 63), i64::MIN);
    assert_eq!(to_unsigned(-1), u64::MAX);
    assert_eq!(to_unsigned(i64::MIN), 1 << 63);
    assert_eq!(to_unsigned(9), 9);
}

#[test]
fn serial_types_have_codes() {
    assert_eq!(RecordCode::from_serial(0), Ok(RecordCode::Null));
    assert_eq!(RecordCode::from_serial(1), Ok(RecordCode::I8));
    assert_eq!(RecordCode::from_serial(2), Ok(RecordCode::I16));
    assert_eq!(RecordCode::from_serial(3), Ok(RecordCode::I24));
    assert_eq!(RecordCode::from_serial(4), Ok(RecordCode::I32));
    assert_eq!(RecordCode::from_serial(5), Ok(RecordCode::I48));
    assert_eq!(RecordCode::from_serial(6), Ok(RecordCode::I64));
    assert_eq!(RecordCode::from_serial(7), Ok(RecordCode::F64));
    assert_eq!(RecordCode::from_serial(8), Ok(RecordCode::Zero));
    assert_eq!(RecordCode::from_serial(9), Ok(RecordCode::One));
    assert_eq!(RecordCode::from_serial(10), Err(Error::UnknownSerialType(10)));
    assert_eq!(RecordCode::from_serial(11), Err(Error::UnknownSerialType(11)));
    assert_eq!(RecordCode::from_serial(12), Ok(RecordCode::Blob(0)));
    assert_eq!(RecordCode::from_serial(13), Ok(RecordCode::String(0)));
    assert_eq!(RecordCode::from_serial(18), Ok(RecordCode::Blob(3)));
    assert_eq!(RecordCode::from_serial(19), Ok(RecordCode::String(3)));
    assert_eq!(RecordCode::from_serial(u64::MAX), Ok(RecordCode::String((u64::MAX - 13) / 2)));
}

#[test]
fn every_code_reads_its_value_and_takes_its_bytes() {
    let body = [0xff, 0xfe, 0x03, 0x04, 0x05, 0x06, 0x07, 0x08, 0x09];
    let cases: Vec<(RecordCode, usize, Value)> = vec![
        (RecordCode::Null, 0, Value::Null),
        (RecordCode::I8, 1, Value::Integer(-1)),
        (RecordCode::I16, 2, Value::Integer(-2)),
        (RecordCode::I24, 3, Value::Integer(-0x1fd)),
        (RecordCode::I32, 4, Value::Integer(-0x1fcfc)),
        (RecordCode::I48, 6, Value::Integer(-0x1_fcfb_fafa)),
        (RecordCode::I64, 8, Value::Integer(-0x1_fcfb_faf9_f8f8)),
        (RecordCode::F64, 8, Value::Float(0xfffe_0304_0506_0708)),
        (RecordCode::Zero, 0, Value::Integer(0)),
        (RecordCode::One, 0, Value::Integer(1)),
        (RecordCode::Blob(2), 2, Value::Blob(vec![0xff, 0xfe])),
        (RecordCode::Blob(0), 0, Value::Blob(vec![])),
        (RecordCode::String(0), 0, Value::Text(String::new())),
    ];
    for (code, taken, expected) in cases {
        let (rest, value) = code.parse(&body).unwrap();
        assert_eq!(value, expected, "{:?}", code);
        assert_eq!(body.len() - rest.len(), taken, "{:?}", code);
    }
    let (rest, value) = RecordCode::String(5).parse(b"Fuji!rest").unwrap();
    assert_eq!(value, Value::Text("Fuji!".to_string()));
    assert_eq!(rest, b"rest");
    let (_, value) = RecordCode::String(3).parse(&[b'a', 0xff, b'b']).unwrap();
    assert_eq!(value, Value::Text("a\u{fffd}b".to_string()));
    let (_, value) = RecordCode::F64.parse(&1.5f64.to_be_bytes()).unwrap();
    assert_eq!(value, Value::Float(1.5f64.to_bits()));
}

#[test]
fn a_code_fails_on_a_short_body() {
    for (code, len) in [
        (RecordCode::I8, 0usize),
        (RecordCode::I16, 1),
        (RecordCode::I24, 2),
        (RecordCode::I32, 3),
        (RecordCode::I48, 5),
        (RecordCode::I64, 7),
        (RecordCode::F64, 7),
        (RecordCode::Blob(4), 3),
        (RecordCode::String(4), 3),
        (RecordCode::Blob(u64::MAX), 9),
    ] {
        let body = vec![1u8; len];
        assert_eq!(code.parse(&body), Err(Error::MalformedRecord), "{:?}", code);
    }
}

#[test]
fn a_record_gives_its_values_in_order() {
    // header of 5 bytes: length, null, one-byte integer, text of 4, blob of 1
    let bytes = [5, 0, 1, 21, 14, 0x2a, b'F', b'u', b'j', b'i', 0x99, 0xee];
    let (rest, row) = payload(&bytes).parse().unwrap();
    assert_eq!(
        row,
        vec![
            Value::Null,
            Value::Integer(42),
            Value::Text("Fuji".to_string()),
            Value::Blob(vec![0x99]),
        ]
    );
    assert_eq!(rest, &[0xee]);
}

#[test]
fn a_record_that_cannot_be_read() {
    for bytes in [
        vec![],
        vec![0x80],
        vec![9, 1, 1],
        vec![0, 1, 5],
        vec![1],
        vec![2, 10, 0],
        vec![2, 11, 0],
        vec![2, 1],
        vec![3, 1, 2, 7, 0],
    ] {
        assert_eq!(payload(&bytes).parse(), Err(Error::MalformedRecord), "{:?}", bytes);
    }
}

#[test]
fn a_record_passes_over_an_unfinished_serial_type() {
    let bytes = [3, 1, 0x81, 7];
    let (_, row) = payload(&bytes).parse().unwrap();
    assert_eq!(row, vec![Value::Integer(7)]);
}

#[test]
fn a_null_first_value_of_a_table_row_is_the_row_id() {
    let record = [3, 0, 19, b'r', b'e', b'd'];
    let cell = Cell::TableLeaf { row_id: 77, payload: payload(&record) };
    assert_eq!(
        cell.row(),
        Ok(vec![Value::Integer(77), Value::Text("red".to_string())])
    );
    let cell = Cell::TableLeaf { row_id: u64::MAX, payload: payload(&record) };
    assert_eq!(cell.row().unwrap()[0], Value::Integer(-1));
    let cell = Cell::IndexLeaf { payload: payload(&record) };
    assert_eq!(cell.row().unwrap()[0], Value::Null);
    let kept = [2, 1, 5];
    let cell = Cell::TableLeaf { row_id: 77, payload: payload(&kept) };
    assert_eq!(cell.row(), Ok(vec![Value::Integer(5)]));
}

#[test]
fn cells_point_to_pages_and_payloads() {
    let record = [2, 1, 5];
    let leaf = Cell::TableLeaf { row_id: 1, payload: payload(&record) };
    assert_eq!(leaf.next_page(), None);
    assert_eq!(leaf.get_payload(), Some(&payload(&record)));
    assert_eq!(leaf.row_id(), Some(1));
    let interior = Cell::TableInterior { left_child_page: 9, row_id: 4 };
    assert_eq!(interior.next_page(), Some(9));
    assert_eq!(interior.get_payload(), None);
    assert_eq!(interior.row(), Err(Error::MalformedRecord));
    assert_eq!(interior.row_id(), Some(4));
    let nowhere = Cell::TableInterior { left_child_page: 0, row_id: 4 };
    assert_eq!(nowhere.next_page(), None);
    let index = Cell::IndexInterior { left_child_page: 3, payload: payload(&record) };
    assert_eq!(index.next_page(), Some(3));
    assert_eq!(index.get_payload(), Some(&payload(&record)));
    assert_eq!(index.row_id(), None);
    let entry = Cell::IndexLeaf { payload: payload(&record) };
    assert_eq!(entry.next_page(), None);
    assert_eq!(entry.get_payload(), Some(&payload(&record)));
}

#[test]
fn page_kinds() {
    assert_eq!(PageKind::from_byte(2), Ok(PageKind::IndexInterior));
    assert_eq!(PageKind::from_byte(5), Ok(PageKind::TableInterior));
    assert_eq!(PageKind::from_byte(10), Ok(PageKind::IndexLeaf));
    assert_eq!(PageKind::from_byte(13), Ok(PageKind::TableLeaf));
    assert_eq!(PageKind::from_byte(0), Err(Error::UnknownPageKind(0)));
    assert_eq!(PageKind::from_byte(14), Err(Error::UnknownPageKind(14)));
    assert!(PageKind::IndexInterior.is_interior());
    assert!(PageKind::TableInterior.is_interior());
    assert!(!PageKind::IndexLeaf.is_interior());
    assert!(!PageKind::TableLeaf.is_interior());
}

#[test]
fn btree_headers() {
    let bytes = [5, 0x01, 0x02, 0x00, 0x03, 0x0f, 0xf0, 7, 0, 0, 1, 4, 0xaa];
    let (rest, header) = parse_btree_header(&bytes).unwrap();
    assert_eq!(
        header,
        BtreeHeader {
            kind: PageKind::TableInterior,
            first_freeblock: 0x0102,
            cell_count: 3,
            cell_contents: 0x0ff0,
            fragmented_free_bytes: 7,
            rightmost_pointer: Some(260),
        }
    );
    assert_eq!(rest, &[0xaa]);
    let mut leaf = bytes;
    leaf[0] = 13;
    let (_, header) = parse_btree_header(&leaf).unwrap();
    assert_eq!(header.kind, PageKind::TableLeaf);
    assert_eq!(header.rightmost_pointer, None);
    assert_eq!(parse_btree_header(&[]), Err(Error::MalformedBtreeHeader));
    assert_eq!(parse_btree_header(&bytes[..11]), Err(Error::MalformedBtreeHeader));
    assert_eq!(parse_btree_header(&[1; 12]), Err(Error::UnknownPageKind(1)));
    assert_eq!(parse_btree_header(&[1]), Err(Error::UnknownPageKind(1)));
}

fn header_of(kind: PageKind) -> BtreeHeader {
    BtreeHeader {
        kind,
        first_freeblock: 0,
        cell_count: 0,
        cell_contents: 0,
        fragmented_free_bytes: 0,
        rightmost_pointer: None,
    }
}

#[test]
fn cells_of_each_kind() {
    let record = [2u8, 1, 5];
    let bytes = [3, 0x81, 0x00, 2, 1, 5, 0xee];
    let (rest, cell) = header_of(PageKind::TableLeaf).parse_cell(&bytes).unwrap();
    assert_eq!(rest, &[0xee]);
    match cell {
        Cell::TableLeaf { row_id, payload: found } => {
            assert_eq!(row_id, 128);
            assert_eq!(found, payload(&record));
        }
        other => panic!("{:?}", other),
    }
    let bytes = [0, 0, 1, 2, 0x81, 0x01, 0xee];
    let (rest, cell) = header_of(PageKind::TableInterior).parse_cell(&bytes).unwrap();
    assert_eq!(rest, &[0xee]);
    match cell {
        Cell::TableInterior { left_child_page, row_id } => {
            assert_eq!(left_child_page, 258);
            assert_eq!(row_id, 129);
        }
        other => panic!("{:?}", other),
    }
    let bytes = [3, 2, 1, 5, 0xee];
    let (rest, cell) = header_of(PageKind::IndexLeaf).parse_cell(&bytes).unwrap();
    assert_eq!(rest, &[0xee]);
    match cell {
        Cell::IndexLeaf { payload: found } => assert_eq!(found, payload(&record)),
        other => panic!("{:?}", other),
    }
    let bytes = [0, 0, 0, 9, 3, 2, 1, 5];
    let (rest, cell) = header_of(PageKind::IndexInterior).parse_cell(&bytes).unwrap();
    assert!(rest.is_empty());
    match cell {
        Cell::IndexInterior { left_child_page, payload: found } => {
            assert_eq!(left_child_page, 9);
            assert_eq!(found, payload(&record));
        }
        other => panic!("{:?}", other),
    }
}

#[test]
fn cells_that_cannot_be_read() {
    let leaf = header_of(PageKind::TableLeaf);
    assert_eq!(leaf.parse_cell(&[]).err(), Some(Error::MalformedVarint));
    assert_eq!(leaf.parse_cell(&[3]).err(), Some(Error::MalformedVarint));
    assert_eq!(leaf.parse_cell(&[3, 0x80]).err(), Some(Error::MalformedVarint));
    assert_eq!(leaf.parse_cell(&[3, 1, 2, 1]).err(), Some(Error::MalformedRecord));
    let interior = header_of(PageKind::TableInterior);
    assert_eq!(interior.parse_cell(&[0, 0, 1]).err(), Some(Error::MalformedRecord));
    assert_eq!(interior.parse_cell(&[0, 0, 0, 1]).err(), Some(Error::MalformedVarint));
    let entry = header_of(PageKind::IndexLeaf);
    assert_eq!(entry.parse_cell(&[]).err(), Some(Error::MalformedVarint));
    assert_eq!(entry.parse_cell(&[2, 1]).err(), Some(Error::MalformedRecord));
    let index = header_of(PageKind::IndexInterior);
    assert_eq!(index.parse_cell(&[0, 0]).err(), Some(Error::MalformedRecord));
    assert_eq!(index.parse_cell(&[0, 0, 0, 1, 0x80]).err(), Some(Error::MalformedVarint));
    assert_eq!(index.parse_cell(&[0, 0, 0, 1, 2, 1]).err(), Some(Error::MalformedRecord));
}

fn leaf_page(page_id: u64, data: Vec<u8>, cell_count: u16) -> Page {
    let mut header = header_of(PageKind::TableLeaf);
    header.cell_count = cell_count;
    Page { page_id, data, header }
}

#[test]
fn a_page_gives_its_cells_in_pointer_order() {
    let mut data = vec![0u8; 64];
    data[8..12].copy_from_slice(&[0, 40, 0, 50]);
    data[40..45].copy_from_slice(&[3, 2, 2, 1, 5]);
    data[50..55].copy_from_slice(&[3, 1, 2, 1, 6]);
    let page = leaf_page(2, data.clone(), 2);
    let rows: Vec<_> = page.cells().collect().iter().map(|c| (c.row_id(), c.row())).collect();
    assert_eq!(
        rows,
        vec![
            (Some(2), Ok(vec![Value::Integer(5)])),
            (Some(1), Ok(vec![Value::Integer(6)])),
        ]
    );
    let first = leaf_page(1, data.clone(), 2);
    assert!(first.cells().collect().is_empty());
    let mut moved = vec![0u8; 164];
    moved[108..112].copy_from_slice(&[0, 140, 0, 150]);
    moved[140..145].copy_from_slice(&[3, 2, 2, 1, 5]);
    moved[150..155].copy_from_slice(&[3, 1, 2, 1, 6]);
    assert_eq!(leaf_page(1, moved, 2).cells().collect().len(), 2);
}

#[test]
fn the_cells_of_a_page_come_one_by_one() {
    let mut data = vec![0u8; 64];
    data[8..14].copy_from_slice(&[0, 40, 0, 50, 0, 63]);
    data[40..45].copy_from_slice(&[3, 2, 2, 1, 5]);
    data[50..55].copy_from_slice(&[3, 1, 2, 1, 6]);
    data[63] = 9;
    let page = leaf_page(2, data, 3);
    let mut cells = page.cells();
    assert_eq!(cells.ptr_array, &[0, 40, 0, 50, 0, 63]);
    assert_eq!(cells.next().unwrap().row_id(), Some(2));
    assert_eq!(cells.ptr_array, &[0, 50, 0, 63]);
    assert_eq!(cells.next().unwrap().row_id(), Some(1));
    assert_eq!(cells.ptr_array, &[0, 63]);
    assert!(cells.next().is_none());
    assert_eq!(cells.ptr_array, &[0, 63]);
    assert!(cells.next().is_none());
    assert!(cells.collect().is_empty());
}

#[test]
fn a_page_stops_at_the_first_cell_that_cannot_be_read() {
    let mut data = vec![0u8; 64];
    data[8..14].copy_from_slice(&[0, 40, 0, 63, 0, 50]);
    data[40..45].copy_from_slice(&[3, 2, 2, 1, 5]);
    data[50..55].copy_from_slice(&[3, 1, 2, 1, 6]);
    data[63] = 9;
    assert_eq!(leaf_page(2, data.clone(), 3).cells().collect().len(), 1);
    data[10..12].copy_from_slice(&[0xff, 0xff]);
    assert_eq!(leaf_page(2, data.clone(), 3).cells().collect().len(), 1);
    assert!(leaf_page(2, data.clone(), 29).cells().collect().is_empty());
    assert!(leaf_page(2, vec![0u8; 4], 0).cells().collect().is_empty());
    let mut interior = leaf_page(2, data, 1);
    interior.header.kind = PageKind::TableInterior;
    let cells = interior.cells().collect();
    assert_eq!(cells.len(), 1);
    assert_eq!(cells[0].next_page(), Some(0x0301_0201));
    assert_eq!(cells[0].row_id(), Some(6));
}

fn database_header() -> Vec<u8> {
    let mut h = vec![0u8; 100];
    h[..16].copy_from_slice(b"SQLite format 3\0");
    h[16..18].copy_from_slice(&4096u16.to_be_bytes());
    h[18] = 1;
    h[19] = 2;
    h[20] = 3;
    h[21] = 64;
    h[22] = 32;
    h[23] = 32;
    for (i, at) in [24usize, 28, 32, 36, 40, 44, 48, 52, 56, 60, 64, 68].iter().enumerate() {
        h[*at..*at + 4].copy_from_slice(&(1000 + i as u32).to_be_bytes());
    }
    h[92..96].copy_from_slice(&77u32.to_be_bytes());
    h[96..100].copy_from_slice(&3_045_000u32.to_be_bytes());
    h
}

#[test]
fn the_database_header_is_read_field_by_field() {
    let bytes = database_header();
    let (rest, h) = DatabaseHeader::new(&bytes).unwrap();
    assert_eq!(rest, &bytes[..]);
    assert_eq!(h.header_string, "SQLite format 3");
    assert_eq!(h.page_size, 4096);
    assert_eq!(h.file_format_write_version, 1);
    assert_eq!(h.file_format_read_version, 2);
    assert_eq!(h.reserved_space, 3);
    assert_eq!(h.max_embedded_payload_fraction, 64);
    assert_eq!(h.min_embedded_payload_fraction, 32);
    assert_eq!(h.leaf_payload_fraction, 32);
    assert_eq!(h.file_change_counter, 1000);
    assert_eq!(h.database_size, 1001);
    assert_eq!(h.first_freelist_trunk_page, 1002);
    assert_eq!(h.total_freelist_pages, 1003);
    assert_eq!(h.schema_cookie, 1004);
    assert_eq!(h.schema_format_number, 1005);
    assert_eq!(h.default_page_cache_size, 1006);
    assert_eq!(h.largest_root_btree_page_number, 1007);
    assert_eq!(h.database_text_encoding, 1008);
    assert_eq!(h.user_version, 1009);
    assert_eq!(h.incremental_vacuum_mode, 1010);
    assert_eq!(h.application_id, 1011);
    assert_eq!(h.version_valid_for, 77);
    assert_eq!(h.sqlite_version_number, 3_045_000);
    let (rest, again) = parse_db_header(&bytes).unwrap();
    assert_eq!(rest, &bytes[..]);
    assert_eq!(again.page_size, 4096);
    assert_eq!(again.sqlite_version_number, 3_045_000);
    assert_eq!(parse_db_header(&bytes[..50]).err(), Some(Error::MalformedHeader));
}

#[test]
fn a_database_header_that_cannot_be_read() {
    let bytes = database_header();
    assert_eq!(DatabaseHeader::new(&bytes[..99]).err(), Some(Error::MalformedHeader));
    assert_eq!(DatabaseHeader::new(&[]).err(), Some(Error::MalformedHeader));
    let mut broken = bytes.clone();
    broken[3] = 0xff;
    assert_eq!(DatabaseHeader::new(&broken).err(), Some(Error::MalformedHeader));
    let mut other = bytes;
    other[..15].copy_from_slice("Grüße, Welt!!".as_bytes());
    assert_eq!(DatabaseHeader::new(&other).unwrap().1.header_string, "Grüße, Welt!!");
}

#[test]
fn values_as_text() {
    assert_eq!(Value::Null.to_string(), "");
    assert_eq!(Value::Integer(0).to_string(), "0");
    assert_eq!(Value::Integer(-42).to_string(), "-42");
    assert_eq!(Value::Integer(i64::MAX).to_string(), "9223372036854775807");
    assert_eq!(Value::Integer(i64::MIN).to_string(), "-9223372036854775808");
    assert_eq!(Value::Text("Light Green".to_string()).to_string(), "Light Green");
    assert_eq!(Value::Blob(vec![]).to_string(), "[]");
    assert_eq!(Value::Blob(vec![7]).to_string(), "[7]");
    assert_eq!(Value::Blob(vec![0, 10, 255]).to_string(), "[0, 10, 255]");
    assert_eq!(Value::Float(1.5f64.to_bits()).to_string(), "");
}

#[test]
fn values_as_numbers() {
    assert_eq!(Value::Null.to_u64(), 0);
    assert_eq!(Value::Integer(5).to_u64(), 5);
    assert_eq!(Value::Integer(-1).to_u64(), u64::MAX);
    assert_eq!(Value::Blob(vec![1]).to_u64(), 0);
    assert_eq!(Value::Text("12".to_string()).to_u64(), 12);
    assert_eq!(Value::Text("+12".to_string()).to_u64(), 12);
    assert_eq!(Value::Text("-12".to_string()).to_u64(), 0);
    assert_eq!(Value::Text("12a".to_string()).to_u64(), 0);
    assert_eq!(Value::Text("".to_string()).to_u64(), 0);
    assert_eq!(Value::Text("18446744073709551615".to_string()).to_u64(), u64::MAX);
    assert_eq!(Value::Text("18446744073709551616".to_string()).to_u64(), 0);
}

#[test]
fn doubles_are_cut_off_toward_zero() {
    for x in [
        0.0f64,
        -0.0,
        0.5,
        0.999,
        1.0,
        1.5,
        2.0,
        255.99,
        4_503_599_627_370_496.0,
        4_503_599_627_370_497.0,
        9_007_199_254_740_993.0,
        1e15,
        1e19,
        18_446_744_073_709_549_568.0,
        18_446_744_073_709_551_616.0,
        1e300,
        -1.0,
        -1e300,
        f64::INFINITY,
        f64::NEG_INFINITY,
        f64::NAN,
        f64::MIN_POSITIVE,
        5e-324,
    ] {
        assert_eq!(double_u64(x.to_bits()), x as u64, "{}", x);
        assert_eq!(Value::Float(x.to_bits()).to_u64(), x as u64, "{}", x);
    }
}

#[test]
fn numbers_are_read_as_the_standard_library_reads_them() {
    for text in [
        "0", "7", "007", "+7", "-7", "-0", "+", "-", "", " 7", "7 ", "1_000", "0x10", "1.0",
        "9223372036854775807", "9223372036854775808", "-9223372036854775808",
        "-9223372036854775809", "18446744073709551615", "18446744073709551616",
        "99999999999999999999999", "--1", "+-1", "٣",
    ] {
        assert_eq!(read_i64(&chars(text)), text.parse::<i64>().ok(), "{:?}", text);
        assert_eq!(read_u64(&chars(text)), text.parse::<u64>().ok(), "{:?}", text);
    }
}

#[test]
fn texts_are_ordered_as_strings_are() {
    let texts = ["", "a", "A", "ab", "abc", "b", "B", "Pink Eyes", "Pink", "é", "z", "日本", "\u{10ffff}"];
    for a in texts {
        for b in texts {
            let expected = if a < b {
                Order::Less
            } else if a > b {
                Order::Greater
            } else {
                Order::Equal
            };
            assert_eq!(compare(a, b), expected, "{:?} {:?}", a, b);
            assert_eq!(same_text(a, b), a == b);
        }
    }
}

#[derive(PartialEq, PartialOrd)]
enum Reference {
    Null,
    Integer(i64),
    Float(f64),
    Blob(Vec<u8>),
    Text(String),
}

#[test]
fn values_are_ordered_by_kind_and_then_by_what_they_hold() {
    let samples: Vec<(Value, Reference)> = vec![
        (Value::Null, Reference::Null),
        (Value::Integer(-3), Reference::Integer(-3)),
        (Value::Integer(7), Reference::Integer(7)),
        (Value::Integer(i64::MIN), Reference::Integer(i64::MIN)),
        (Value::Float(0.0f64.to_bits()), Reference::Float(0.0)),
        (Value::Float((-0.0f64).to_bits()), Reference::Float(-0.0)),
        (Value::Float(2.5f64.to_bits()), Reference::Float(2.5)),
        (Value::Float((-1e9f64).to_bits()), Reference::Float(-1e9)),
        (Value::Float(f64::NAN.to_bits()), Reference::Float(f64::NAN)),
        (Value::Float(f64::INFINITY.to_bits()), Reference::Float(f64::INFINITY)),
        (Value::Blob(vec![]), Reference::Blob(vec![])),
        (Value::Blob(vec![1, 2]), Reference::Blob(vec![1, 2])),
        (Value::Blob(vec![1, 2, 0]), Reference::Blob(vec![1, 2, 0])),
        (Value::Blob(vec![200]), Reference::Blob(vec![200])),
        (Value::Text(String::new()), Reference::Text(String::new())),
        (Value::Text("Fuji".to_string()), Reference::Text("Fuji".to_string())),
        (Value::Text("fuji".to_string()), Reference::Text("fuji".to_string())),
        (Value::Text("Fujis".to_string()), Reference::Text("Fujis".to_string())),
    ];
    for (a, x) in &samples {
        for (b, y) in &samples {
            let expected = x.partial_cmp(y).map(|o| match o {
                std::cmp::Ordering::Less => Order::Less,
                std::cmp::Ordering::Equal => Order::Equal,
                std::cmp::Ordering::Greater => Order::Greater,
            });
            assert_eq!(a.order(b), expected, "{:?} {:?}", a, b);
        }
    }
    assert_eq!(compare_bytes(&[1, 2], &[1, 3]), Order::Less);
    assert_eq!(compare_bytes(&[2], &[1, 3]), Order::Greater);
    assert_eq!(compare_bytes(&[], &[]), Order::Equal);
}
