//! The lines that a user types: which command a line stands for.

use vstd::prelude::*;
use crate::sql::{select_of, texts, Select, SelectView};
use crate::text::{chars_of, same_text, string_of};

verus! {

/// What a line asks for.
#[derive(Debug, Clone, PartialEq, Eq)]
pub enum Command {
    /// A command that starts with a dot.
    Dot(String),
    /// A statement to run.
    Sql(Select),
    /// A database file to open.
    Load(String),
    /// A line that cannot be followed, with the reason.
    Error(String),
    /// The line before.
    History,
    Unknown,
    /// A program of the shell to run.
    Utility(String),
    Quit,
}

/// What a [`Command`] holds.
pub enum CommandView {
    Dot(Seq<char>),
    Sql(SelectView),
    Load(Seq<char>),
    Error(Seq<char>),
    History,
    Unknown,
    Utility(Seq<char>),
    Quit,
}

impl View for Command {
    type V = CommandView;

    open spec fn view(&self) -> CommandView {
        match self {
            Command::Dot(word) => CommandView::Dot(word@),
            Command::Sql(statement) => CommandView::Sql(statement@),
            Command::Load(path) => CommandView::Load(path@),
            Command::Error(reason) => CommandView::Error(reason@),
            Command::History => CommandView::History,
            Command::Unknown => CommandView::Unknown,
            Command::Utility(word) => CommandView::Utility(word@),
            Command::Quit => CommandView::Quit,
        }
    }
}

/// Whether `c` is white space: one of the characters with the Unicode
/// property of that name.
pub open spec fn is_blank(c: char) -> bool {
    let code = c as u32;
    (0x09 <= code && code <= 0x0d) || code == 0x20 || code == 0x85 || code == 0xa0 || code
        == 0x1680 || (0x2000 <= code && code <= 0x200a) || code == 0x2028 || code == 0x2029
        || code == 0x202f || code == 0x205f || code == 0x3000
}

/// The first position from `pos` on that holds no white space.
pub open spec fn blanks_end(s: Seq<char>, pos: nat) -> nat
    decreases s.len() - pos,
{
    if pos < s.len() && is_blank(s[pos as int]) {
        blanks_end(s, pos + 1)
    } else {
        pos
    }
}

/// The first position from `pos` on that holds white space.
pub open spec fn word_stop(s: Seq<char>, pos: nat) -> nat
    decreases s.len() - pos,
{
    if pos < s.len() && !is_blank(s[pos as int]) {
        word_stop(s, pos + 1)
    } else {
        pos
    }
}

/// The words of a line from `pos` on: the runs of characters between white space.
pub open spec fn words_from(s: Seq<char>, pos: nat) -> Seq<Seq<char>>
    decreases s.len() - pos,
{
    let start = blanks_end(s, pos);
    let stop = word_stop(s, start);
    if pos <= start < stop <= s.len() {
        seq![s.subrange(start as int, stop as int)] + words_from(s, stop)
    } else {
        Seq::empty()
    }
}

/// Words with one space between each two.
pub open spec fn joined(words: Seq<Seq<char>>) -> Seq<char>
    decreases words.len(),
{
    if words.len() == 0 {
        Seq::empty()
    } else if words.len() == 1 {
        words[0]
    } else {
        joined(words.drop_last()) + seq![' '] + words.last()
    }
}

/// Whether a word asks to leave.
pub open spec fn is_quit(word: Seq<char>) -> bool {
    word == "quit"@ || word == "q"@ || word == "Q"@ || word == "QUIT"@
}

/// Whether a word names a program of the shell that may be run.
pub open spec fn is_shell(word: Seq<char>) -> bool {
    word == "ls"@ || word == "pwd"@ || word == "clear"@
}

/// The command that a line stands for. `extension` is the extension of the
/// file that a line of the words `load` and a path names; only such a line
/// is read with it.
///
/// A single word that starts with a dot is a dot command; a single word may
/// also ask to leave or name a program of the shell. The line of a vertical
/// tab and a line feed asks for the line before. `load` with a path opens
/// the file where its extension is `db`. `sql` with a statement behind it
/// runs the statement; the words of the statement are read with one space
/// between each two.
pub open spec fn command_of(s: Seq<char>, extension: Option<Seq<char>>) -> CommandView {
    let words = words_from(s, 0);
    if words.len() == 1 && words[0].len() > 0 && words[0][0] == '.' {
        CommandView::Dot(words[0])
    } else if words.len() == 1 && is_quit(words[0]) {
        CommandView::Quit
    } else if words.len() == 1 && is_shell(words[0]) {
        CommandView::Utility(words[0])
    } else if s == seq!['\u{b}', '\n'] {
        CommandView::History
    } else if words.len() == 2 && words[0] == "load"@ {
        if extension == Some("db"@) {
            CommandView::Load(words[1])
        } else {
            CommandView::Error("File \""@ + words[1] + "\" extension extraction failed"@)
        }
    } else if words.len() >= 1 && words[0] == "sql"@ {
        let statement = joined(words.skip(1));
        match select_of(statement) {
            Some(select) => CommandView::Sql(select),
            None => CommandView::Error("malformed select statement: "@ + statement),
        }
    } else {
        CommandView::Unknown
    }
}

/// Whether `c` is white space.
pub fn blank(c: char) -> (r: bool)
    ensures
        r == is_blank(c),
{
    let code: u32 = c as u32;
    (0x09 <= code && code <= 0x0d) || code == 0x20 || code == 0x85 || code == 0xa0 || code
        == 0x1680 || (0x2000 <= code && code <= 0x200a) || code == 0x2028 || code == 0x2029
        || code == 0x202f || code == 0x205f || code == 0x3000
}

/// The words of a line.
pub fn split_words(s: &[char]) -> (r: Vec<String>)
    ensures
        texts(r@) == words_from(s@, 0),
{
    let mut out: Vec<String> = Vec::new();
    let mut pos: usize = 0;
    assert(texts(out@) + words_from(s@, 0) =~= words_from(s@, 0));
    loop
        invariant
            pos <= s@.len(),
            words_from(s@, 0) == texts(out@) + words_from(s@, pos as nat),
        decreases s@.len() - pos,
    {
        let mut start: usize = pos;
        while start < s.len() && blank(s[start])
            invariant
                pos <= start <= s@.len(),
                blanks_end(s@, pos as nat) == blanks_end(s@, start as nat),
            decreases s@.len() - start,
        {
            start += 1;
        }
        let mut stop: usize = start;
        while stop < s.len() && !blank(s[stop])
            invariant
                start <= stop <= s@.len(),
                word_stop(s@, start as nat) == word_stop(s@, stop as nat),
            decreases s@.len() - stop,
        {
            stop += 1;
        }
        if start < stop {
            let word = string_of(&s[start..stop]);
            proof {
                let rest = words_from(s@, stop as nat);
                assert(texts(out@.push(word)) =~= texts(out@).push(word@));
                assert(texts(out@.push(word)) + rest =~= texts(out@) + (seq![word@] + rest));
            }
            out.push(word);
            pos = stop;
        } else {
            assert(texts(out@) + Seq::<Seq<char>>::empty() =~= texts(out@));
            return out;
        }
    }
}

/// Puts one space between each two of the words from the second on.
fn join_rest(words: &Vec<String>) -> (r: String)
    requires
        words@.len() >= 1,
    ensures
        r@ == joined(texts(words@).skip(1)),
{
    let ghost rest = texts(words@).skip(1);
    let mut out = String::new();
    let mut i: usize = 1;
    assert(rest.take(0) =~= Seq::<Seq<char>>::empty());
    while i < words.len()
        invariant
            1 <= i <= words@.len(),
            rest == texts(words@).skip(1),
            out@ == joined(rest.take(i - 1)),
        decreases words@.len() - i,
    {
        proof {
            let next = rest.take(i as int);
            assert(next.drop_last() =~= rest.take(i - 1));
            assert(next.last() == words@[i as int]@);
            if i == 1 {
                assert(next[0] == words@[1]@);
            }
        }
        if i > 1 {
            let gap: [char; 1] = [' '];
            let gap_text = string_of(&gap);
            assert(gap_text@ =~= seq![' ']);
            out.append(gap_text.as_str());
        }
        out.append(words[i].as_str());
        proof {
            if i == 1 {
                assert(out@ =~= words@[1]@);
            }
        }
        i += 1;
    }
    assert(rest.take(i - 1) =~= rest);
    out
}

/// Asks `Path::extension` for the extension of a path, as text. Nothing is
/// said of the answer: what a path's file name is depends on the platform.
#[verifier::external_body]
fn extension(path: &str) -> (r: Option<String>) {
    std::path::Path::new(path).extension().and_then(|e| e.to_str()).map(|e| e.to_owned())
}

/// The command that a line stands for, where the file that it may name has
/// the given extension.
pub fn command_with(value: &str, extension: Option<String>) -> (r: Command)
    ensures
        r@ == command_of(
            value@,
            match extension {
                Some(e) => Some(e@),
                None => None,
            },
        ),
{
    let chars = chars_of(value);
    let words = split_words(chars.as_slice());
    let ghost w = texts(words@);
    if words.len() == 1 {
        assert(w[0] == words@[0]@);
        let word = &words[0];
        let first = chars_of(word.as_str());
        if first.len() > 0 && first[0] == '.' {
            return Command::Dot(word.clone());
        }
        if same_text(word.as_str(), "quit") || same_text(word.as_str(), "q") || same_text(
            word.as_str(),
            "Q",
        ) || same_text(word.as_str(), "QUIT") {
            return Command::Quit;
        }
        if same_text(word.as_str(), "ls") || same_text(word.as_str(), "pwd") || same_text(
            word.as_str(),
            "clear",
        ) {
            return Command::Utility(word.clone());
        }
    }
    if chars.len() == 2 && chars[0] == '\u{b}' && chars[1] == '\n' {
        assert(chars@ =~= seq!['\u{b}', '\n']);
        return Command::History;
    }
    if words.len() == 2 && same_text(words[0].as_str(), "load") {
        assert(w[0] == words@[0]@ && w[1] == words@[1]@);
        let is_db = match &extension {
            Some(e) => same_text(e.as_str(), "db"),
            None => false,
        };
        if is_db {
            return Command::Load(words[1].clone());
        }
        let mut reason = "File \"".to_owned();
        reason.append(words[1].as_str());
        reason.append("\" extension extraction failed");
        return Command::Error(reason);
    }
    if words.len() >= 1 && same_text(words[0].as_str(), "sql") {
        assert(w[0] == words@[0]@);
        let statement = join_rest(&words);
        return match Select::from_str(statement.as_str()) {
            Ok(select) => Command::Sql(select),
            Err(e) => Command::Error(e.to_string()),
        };
    }
    if words.len() >= 1 {
        assert(w[0] == words@[0]@);
    }
    if words.len() >= 2 {
        assert(w[1] == words@[1]@);
    }
    Command::Unknown
}

impl Command {
    /// The command that a line stands for. The line is left as it is.
    ///
    /// Whether a path that follows `load` ends in the extension `db` is for
    /// the platform to say; any other line has its command by its text alone.
    pub fn from(value: &mut String) -> (r: Command)
        ensures
            *final(value) == *old(value),
            exists|extension: Option<Seq<char>>| r@ == command_of(old(value)@, extension),
    {
        let chars = chars_of(value.as_str());
        let words = split_words(chars.as_slice());
        let found = if words.len() == 2 && same_text(words[0].as_str(), "load") {
            extension(words[1].as_str())
        } else {
            None
        };
        let ghost witness: Option<Seq<char>> = crate::text::text_of(found);
        let command = command_with(value.as_str(), found);
        assert(command@ == command_of(value@, witness));
        command
    }
}

} // verus!
