use sqlite_reader::commands::{blank, command_with, split_words, Command};
use sqlite_reader::error::Error;
use sqlite_reader::sql::{Condition, Select, SelectColumns};

fn command(line: &str) -> Command {
    let mut text = line.to_string();
    let found = Command::from(&mut text);
    assert_eq!(text, line);
    found
}

#[test]
fn white_space_is_what_the_standard_library_takes_for_it() {
    for code in 0..=0x10ffffu32 {
        if let Some(c) = char::from_u32(code) {
            assert_eq!(blank(c), c.is_whitespace(), "{:x}", code);
        }
    }
}

#[test]
fn lines_are_split_into_words() {
    for line in ["", " ", "a", " a ", "load  x.db", "\tsql select\n*\u{a0}from\u{3000}t  ", "\u{b}\n", "a\u{200b}b c"] {
        let chars: Vec<char> = line.chars().collect();
        let expected: Vec<String> = line.split_whitespace().map(|w| w.to_string()).collect();
        assert_eq!(split_words(&chars), expected, "{:?}", line);
    }
}

#[test]
fn dot_commands() {
    assert_eq!(command(".tables"), Command::Dot(".tables".to_string()));
    assert_eq!(command("  .dbinfo\n"), Command::Dot(".dbinfo".to_string()));
    assert_eq!(command("."), Command::Dot(".".to_string()));
    assert_eq!(command(".tables now"), Command::Unknown);
}

#[test]
fn leaving_and_the_shell() {
    for word in ["quit", "q", "Q", "QUIT"] {
        assert_eq!(command(word), Command::Quit);
    }
    assert_eq!(command("Quit"), Command::Unknown);
    assert_eq!(command("quit now"), Command::Unknown);
    for word in ["ls", "pwd", "clear"] {
        assert_eq!(command(word), Command::Utility(word.to_string()));
    }
    assert_eq!(command("ls -l"), Command::Unknown);
    assert_eq!(command("rm"), Command::Unknown);
}

#[test]
fn the_line_before() {
    assert_eq!(command("\u{b}\n"), Command::History);
    assert_eq!(command("\u{b}"), Command::Unknown);
    assert_eq!(command(""), Command::Unknown);
    assert_eq!(command("   "), Command::Unknown);
}

#[test]
fn loading_a_file() {
    assert_eq!(command("load apples.db"), Command::Load("apples.db".to_string()));
    assert_eq!(command("  load   dir/apples.db "), Command::Load("dir/apples.db".to_string()));
    assert_eq!(
        command("load apples.txt"),
        Command::Error("File \"apples.txt\" extension extraction failed".to_string())
    );
    assert_eq!(
        command("load apples"),
        Command::Error("File \"apples\" extension extraction failed".to_string())
    );
    assert_eq!(
        command("load .db"),
        Command::Error("File \".db\" extension extraction failed".to_string())
    );
    assert_eq!(command("load"), Command::Unknown);
    assert_eq!(command("load a.db b.db"), Command::Unknown);
    assert_eq!(command("Load a.db"), Command::Unknown);
}

#[test]
fn the_extension_decides_a_load() {
    assert_eq!(
        command_with("load apples", Some("db".to_string())),
        Command::Load("apples".to_string())
    );
    assert_eq!(
        command_with("load apples.db", None),
        Command::Error("File \"apples.db\" extension extraction failed".to_string())
    );
    assert_eq!(
        command_with("load apples.db", Some("DB".to_string())),
        Command::Error("File \"apples.db\" extension extraction failed".to_string())
    );
    assert_eq!(command_with(".tables", Some("db".to_string())), Command::Dot(".tables".to_string()));
    assert_eq!(command_with("quit", Some("db".to_string())), Command::Quit);
}

#[test]
fn statements() {
    assert_eq!(
        command("sql select *   from apples\n where id = 1"),
        Command::Sql(Select {
            name: "apples".to_string(),
            columns: SelectColumns::All,
            conds: vec![Condition::Eq("id".to_string(), "1".to_string())],
        })
    );
    assert_eq!(
        command("sql select name , color from apples"),
        Command::Error("malformed select statement: select name , color from apples".to_string())
    );
    assert_eq!(command("sql"), Command::Error("malformed select statement: ".to_string()));
    assert_eq!(command("SQL select * from t"), Command::Unknown);
    assert_eq!(command("select * from t"), Command::Unknown);
}

#[test]
fn errors_in_words() {
    assert_eq!(Error::MalformedHeader.to_string(), "malformed database header");
    assert_eq!(Error::MalformedBtreeHeader.to_string(), "malformed b-tree page header");
    assert_eq!(Error::MalformedVarint.to_string(), "malformed varint");
    assert_eq!(Error::MalformedRecord.to_string(), "malformed record");
    assert_eq!(Error::UnknownPageKind(7).to_string(), "invalid b-tree page type: 7");
    assert_eq!(Error::UnknownSerialType(11).to_string(), "invalid serial type: 11");
    assert_eq!(Error::InvalidPageNumber(0).to_string(), "invalid page number: 0");
    assert_eq!(
        Error::InvalidPageNumber(u64::MAX).to_string(),
        "invalid page number: 18446744073709551615"
    );
    assert_eq!(
        Error::MalformedDDL("create x".to_string()).to_string(),
        "malformed create statement: create x"
    );
    assert_eq!(Error::NoSuchTable("pears".to_string()).to_string(), "no such table: pears");
    assert_eq!(
        Error::MalformedSelect("select".to_string()).to_string(),
        "malformed select statement: select"
    );
}
