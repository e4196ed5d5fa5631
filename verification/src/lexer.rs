//! The pieces that statements are made of: spaces, words, keywords, names and
//! literal values. Everything here works on a statement's characters and on
//! positions in them.

use vstd::prelude::*;
use crate::text::chars_of;

verus! {

/// Whether `c` is a space, a tab, a carriage return or a line feed.
pub open spec fn is_space(c: char) -> bool {
    c == ' ' || c == '\t' || c == '\r' || c == '\n'
}

/// Whether `c` may stand in a word: a letter, a digit, a dot or an underscore.
pub open spec fn is_word_char(c: char) -> bool {
    ('a' <= c && c <= 'z') || ('A' <= c && c <= 'Z') || ('0' <= c && c <= '9') || c == '.' || c
        == '_'
}

/// The lower-case form of a capital letter; any other character as it is.
pub open spec fn lower(c: char) -> char {
    if 'A' <= c && c <= 'Z' {
        ((c as u32) + 32) as char
    } else {
        c
    }
}

/// The text with each capital letter in lower case.
pub open spec fn lower_text(s: Seq<char>) -> Seq<char> {
    Seq::new(s.len(), |i: int| lower(s[i]))
}

/// The first position from `pos` on that holds no space.
pub open spec fn skip_spaces(s: Seq<char>, pos: nat) -> nat
    decreases s.len() - pos,
{
    if pos < s.len() && is_space(s[pos as int]) {
        skip_spaces(s, pos + 1)
    } else {
        pos
    }
}

/// The first position from `pos` on that holds no character of a word.
pub open spec fn word_end(s: Seq<char>, pos: nat) -> nat
    decreases s.len() - pos,
{
    if pos < s.len() && is_word_char(s[pos as int]) {
        word_end(s, pos + 1)
    } else {
        pos
    }
}

/// Whether the keyword `kw`, given in lower case, stands at `pos`, in
/// capitals, in lower case or in both.
pub open spec fn keyword_at(s: Seq<char>, pos: nat, kw: Seq<char>) -> bool {
    pos + kw.len() <= s.len() && lower_text(s.subrange(pos as int, (pos + kw.len()) as int)) == kw
}

/// Where the words end that follow a word ending at `end`, each behind
/// spaces or none; `end` itself where no word follows.
pub open spec fn more_words(s: Seq<char>, end: nat) -> nat
    decreases s.len() - end,
{
    let start = skip_spaces(s, end);
    let next = word_end(s, start);
    if start < next <= s.len() && end <= start {
        more_words(s, next)
    } else {
        end
    }
}

/// Where a run of words that starts at `pos` ends; `pos` where no word starts there.
pub open spec fn words_end(s: Seq<char>, pos: nat) -> nat {
    let end = word_end(s, pos);
    if end > pos {
        more_words(s, end)
    } else {
        pos
    }
}

/// A piece of a statement: where its text starts and ends, and where reading goes on.
pub struct Span {
    pub start: usize,
    pub end: usize,
    pub next: usize,
}

/// The name that is read from `pos`: behind spaces or none, a word, or a run
/// of words between double quotes.
pub open spec fn name_at(s: Seq<char>, pos: nat) -> Option<Span> {
    let start = skip_spaces(s, pos);
    let end = word_end(s, start);
    if end > start {
        Some(Span { start: start as usize, end: end as usize, next: end as usize })
    } else if start < s.len() && s[start as int] == '"' {
        let close = words_end(s, start + 1);
        if close < s.len() && s[close as int] == '"' {
            Some(
                Span {
                    start: (start + 1) as usize,
                    end: close as usize,
                    next: (close + 1) as usize,
                },
            )
        } else {
            None
        }
    } else {
        None
    }
}

/// Whether `c` is a single or a double quote.
pub open spec fn is_quote(c: char) -> bool {
    c == '"' || c == '\''
}

/// The literal value that stands at `pos`: a word, or a run of words between quotes.
pub open spec fn value_at(s: Seq<char>, pos: nat) -> Option<Span> {
    let end = word_end(s, pos);
    if end > pos {
        Some(Span { start: pos as usize, end: end as usize, next: end as usize })
    } else if pos < s.len() && is_quote(s[pos as int]) {
        let close = words_end(s, pos + 1);
        if close < s.len() && is_quote(s[close as int]) {
            Some(
                Span { start: (pos + 1) as usize, end: close as usize, next: (close + 1) as usize },
            )
        } else {
            None
        }
    } else {
        None
    }
}

impl Span {
    /// The text of the piece.
    pub open spec fn text(self, s: Seq<char>) -> Seq<char> {
        s.subrange(self.start as int, self.end as int)
    }

    /// Whether the piece lies within `s`, behind `pos`.
    pub open spec fn within(self, s: Seq<char>, pos: nat) -> bool {
        pos <= self.start <= self.end <= self.next <= s.len() && pos < self.next
    }
}

/// Stepping over spaces ends within the text, at the start or behind it.
pub proof fn lemma_skip_spaces(s: Seq<char>, pos: nat)
    requires
        pos <= s.len(),
    ensures
        pos <= skip_spaces(s, pos) <= s.len(),
    decreases s.len() - pos,
{
    if pos < s.len() && is_space(s[pos as int]) {
        lemma_skip_spaces(s, pos + 1);
    }
}

/// Stepping over a word ends within the text, at the start or behind it.
pub proof fn lemma_word_end(s: Seq<char>, pos: nat)
    requires
        pos <= s.len(),
    ensures
        pos <= word_end(s, pos) <= s.len(),
    decreases s.len() - pos,
{
    if pos < s.len() && is_word_char(s[pos as int]) {
        lemma_word_end(s, pos + 1);
    }
}

/// Stepping over further words ends within the text, at the start or behind it.
pub proof fn lemma_more_words(s: Seq<char>, end: nat)
    requires
        end <= s.len(),
    ensures
        end <= more_words(s, end) <= s.len(),
    decreases s.len() - end,
{
    let start = skip_spaces(s, end);
    let next = word_end(s, start);
    if start < next <= s.len() && end <= start {
        lemma_more_words(s, next);
    }
}

/// A name or a value that is read lies within the statement, behind the
/// place from which it is read.
pub proof fn lemma_spans(s: Seq<char>, pos: nat)
    requires
        pos <= s.len(),
        s.len() <= usize::MAX,
    ensures
        name_at(s, pos) matches Some(span) ==> span.within(s, pos),
        value_at(s, pos) matches Some(span) ==> span.within(s, pos),
{
    lemma_skip_spaces(s, pos);
    let start = skip_spaces(s, pos);
    lemma_word_end(s, start);
    lemma_word_end(s, pos);
    if start < s.len() {
        lemma_word_end(s, start + 1);
        lemma_more_words(s, word_end(s, start + 1));
    }
    if pos < s.len() {
        lemma_word_end(s, pos + 1);
        lemma_more_words(s, word_end(s, pos + 1));
    }
}

/// Steps over spaces.
pub(crate) fn spaces(s: &[char], pos: usize) -> (r: usize)
    requires
        pos <= s@.len(),
    ensures
        r == skip_spaces(s@, pos as nat),
        pos <= r <= s@.len(),
{
    let mut i: usize = pos;
    while i < s.len() && (s[i] == ' ' || s[i] == '\t' || s[i] == '\r' || s[i] == '\n')
        invariant
            pos <= i <= s@.len(),
            skip_spaces(s@, pos as nat) == skip_spaces(s@, i as nat),
        decreases s@.len() - i,
    {
        i += 1;
    }
    i
}

/// Whether `c` may stand in a word.
pub(crate) fn word_char(c: char) -> (r: bool)
    ensures
        r == is_word_char(c),
{
    ('a' <= c && c <= 'z') || ('A' <= c && c <= 'Z') || ('0' <= c && c <= '9') || c == '.' || c
        == '_'
}

/// Steps over the characters of a word.
pub(crate) fn word(s: &[char], pos: usize) -> (r: usize)
    requires
        pos <= s@.len(),
    ensures
        r == word_end(s@, pos as nat),
        pos <= r <= s@.len(),
{
    let mut i: usize = pos;
    while i < s.len() && word_char(s[i])
        invariant
            pos <= i <= s@.len(),
            word_end(s@, pos as nat) == word_end(s@, i as nat),
        decreases s@.len() - i,
    {
        i += 1;
    }
    i
}

/// The lower-case form of `c`.
pub(crate) fn to_lower(c: char) -> (r: char)
    ensures
        r == lower(c),
{
    if 'A' <= c && c <= 'Z' {
        let code: u32 = c as u32 + 32;
        proof {
            assert(97 <= code <= 122);
        }
        (code as u8) as char
    } else {
        c
    }
}

/// Whether the keyword `kw`, given in lower case, stands at `pos`.
pub(crate) fn keyword(s: &[char], pos: usize, kw: &str) -> (r: bool)
    requires
        pos <= s@.len(),
    ensures
        r == keyword_at(s@, pos as nat, kw@),
{
    let k = chars_of(kw);
    if k.len() > s.len() - pos {
        return false;
    }
    let ghost part = s@.subrange(pos as int, pos + k@.len());
    let mut i: usize = 0;
    while i < k.len()
        invariant
            i <= k@.len(),
            pos + k@.len() <= s@.len(),
            s@.len() <= usize::MAX,
            part == s@.subrange(pos as int, pos + k@.len()),
            k@ == kw@,
            forall|j: int| 0 <= j < i ==> lower(part[j]) == k@[j],
        decreases k@.len() - i,
    {
        if to_lower(s[pos + i]) != k[i] {
            proof {
                assert(part[i as int] == s@[pos + i]);
                assert(lower_text(part)[i as int] != k@[i as int]);
            }
            return false;
        }
        proof {
            assert(part[i as int] == s@[pos + i]);
        }
        i += 1;
    }
    proof {
        assert(lower_text(part) =~= k@);
    }
    true
}

/// Where the keyword `kw` ends that stands at `pos`, where it stands there.
pub open spec fn keyword_end(s: Seq<char>, pos: nat, kw: Seq<char>) -> Option<nat> {
    if keyword_at(s, pos, kw) {
        Some(pos + kw.len())
    } else {
        None
    }
}

/// Steps over the keyword `kw`, given in lower case, where it stands at `pos`.
pub(crate) fn after_keyword(s: &[char], pos: usize, kw: &str) -> (r: Option<usize>)
    requires
        pos <= s@.len(),
    ensures
        match r {
            Some(end) => keyword_end(s@, pos as nat, kw@) == Some(end as nat) && pos <= end
                <= s@.len(),
            None => keyword_end(s@, pos as nat, kw@).is_none(),
        },
{
    if keyword(s, pos, kw) {
        let len = s.len();
        let n = kw.unicode_len();
        Some(pos + n)
    } else {
        None
    }
}

/// The text between two positions of a statement, as a string.
pub(crate) fn text_between(s: &[char], start: usize, end: usize) -> (r: String)
    requires
        start <= end <= s@.len(),
    ensures
        r@ == s@.subrange(start as int, end as int),
{
    crate::text::string_of(&s[start..end])
}

/// Steps over a run of words with spaces or none between them.
pub(crate) fn words(s: &[char], pos: usize) -> (r: usize)
    requires
        pos <= s@.len(),
    ensures
        r == words_end(s@, pos as nat),
        pos <= r <= s@.len(),
{
    let first = word(s, pos);
    if first == pos {
        return pos;
    }
    let mut end: usize = first;
    loop
        invariant
            pos <= end <= s@.len(),
            first == word_end(s@, pos as nat),
            first > pos,
            more_words(s@, first as nat) == more_words(s@, end as nat),
        decreases s@.len() - end,
    {
        let start = spaces(s, end);
        let next = word(s, start);
        if next > start {
            end = next;
        } else {
            return end;
        }
    }
}

/// Reads a name from `pos`.
pub(crate) fn name(s: &[char], pos: usize) -> (r: Option<Span>)
    requires
        pos <= s@.len(),
    ensures
        r == name_at(s@, pos as nat),
        r matches Some(span) ==> span.within(s@, pos as nat),
{
    let len = s.len();
    proof {
        lemma_spans(s@, pos as nat);
    }
    let start = spaces(s, pos);
    let end = word(s, start);
    if end > start {
        Some(Span { start, end, next: end })
    } else if start < s.len() && s[start] == '"' {
        let close = words(s, start + 1);
        if close < s.len() && s[close] == '"' {
            Some(Span { start: start + 1, end: close, next: close + 1 })
        } else {
            None
        }
    } else {
        None
    }
}

/// Reads a literal value at `pos`.
pub(crate) fn value(s: &[char], pos: usize) -> (r: Option<Span>)
    requires
        pos <= s@.len(),
    ensures
        r == value_at(s@, pos as nat),
        r matches Some(span) ==> span.within(s@, pos as nat),
{
    let len = s.len();
    proof {
        lemma_spans(s@, pos as nat);
    }
    let end = word(s, pos);
    if end > pos {
        Some(Span { start: pos, end, next: end })
    } else if pos < s.len() && (s[pos] == '"' || s[pos] == '\'') {
        let close = words(s, pos + 1);
        if close < s.len() && (s[close] == '"' || s[close] == '\'') {
            Some(Span { start: pos + 1, end: close, next: close + 1 })
        } else {
            None
        }
    } else {
        None
    }
}

} // verus!
