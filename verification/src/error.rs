//! The ways in which reading a database file or a statement can fail.

use vstd::prelude::*;
use crate::decimal::{natural_text, push_natural};
use crate::text::string_of;

verus! {

/// Why a file, a page, a record or a statement was rejected.
#[derive(Debug, Clone, PartialEq, Eq)]
pub enum Error {
    /// The file is shorter than the database header, or the header's text is not UTF-8.
    MalformedHeader,
    /// A page is too short to hold its B-tree header.
    MalformedBtreeHeader,
    /// The input ended before a varint's last byte.
    MalformedVarint,
    /// A record's header or body is shorter than it declares.
    MalformedRecord,
    /// The first byte of a B-tree header names no page kind.
    UnknownPageKind(u8),
    /// A record holds one of the two reserved serial types.
    UnknownSerialType(u64),
    /// A page number is zero or lies beyond the end of the file.
    InvalidPageNumber(u64),
    /// A `CREATE` statement has a shape that is not read here.
    MalformedDDL(String),
    /// The catalogue holds no entry of that name.
    NoSuchTable(String),
    /// A `SELECT` statement has a shape that is not read here.
    MalformedSelect(String),
}

/// What an [`Error`] holds.
pub enum ErrorView {
    MalformedHeader,
    MalformedBtreeHeader,
    MalformedVarint,
    MalformedRecord,
    UnknownPageKind(u8),
    UnknownSerialType(u64),
    InvalidPageNumber(u64),
    MalformedDDL(Seq<char>),
    NoSuchTable(Seq<char>),
    MalformedSelect(Seq<char>),
}

impl View for Error {
    type V = ErrorView;

    open spec fn view(&self) -> ErrorView {
        match self {
            Error::MalformedHeader => ErrorView::MalformedHeader,
            Error::MalformedBtreeHeader => ErrorView::MalformedBtreeHeader,
            Error::MalformedVarint => ErrorView::MalformedVarint,
            Error::MalformedRecord => ErrorView::MalformedRecord,
            Error::UnknownPageKind(b) => ErrorView::UnknownPageKind(*b),
            Error::UnknownSerialType(n) => ErrorView::UnknownSerialType(*n),
            Error::InvalidPageNumber(n) => ErrorView::InvalidPageNumber(*n),
            Error::MalformedDDL(text) => ErrorView::MalformedDDL(text@),
            Error::NoSuchTable(name) => ErrorView::NoSuchTable(name@),
            Error::MalformedSelect(text) => ErrorView::MalformedSelect(text@),
        }
    }
}

impl ErrorView {
    /// The error in words.
    pub open spec fn message(self) -> Seq<char> {
        match self {
            ErrorView::MalformedHeader => "malformed database header"@,
            ErrorView::MalformedBtreeHeader => "malformed b-tree page header"@,
            ErrorView::MalformedVarint => "malformed varint"@,
            ErrorView::MalformedRecord => "malformed record"@,
            ErrorView::UnknownPageKind(b) => "invalid b-tree page type: "@ + natural_text(b as nat),
            ErrorView::UnknownSerialType(n) => "invalid serial type: "@ + natural_text(n as nat),
            ErrorView::InvalidPageNumber(n) => "invalid page number: "@ + natural_text(n as nat),
            ErrorView::MalformedDDL(text) => "malformed create statement: "@ + text,
            ErrorView::NoSuchTable(name) => "no such table: "@ + name,
            ErrorView::MalformedSelect(text) => "malformed select statement: "@ + text,
        }
    }
}

/// A label with a number behind it.
fn numbered(label: &str, n: u64) -> (r: String)
    ensures
        r@ == label@ + natural_text(n as nat),
{
    let mut digits: Vec<char> = Vec::new();
    push_natural(n, &mut digits);
    let tail = string_of(digits.as_slice());
    let mut out = label.to_owned();
    out.append(tail.as_str());
    assert(out@ =~= label@ + natural_text(n as nat));
    out
}

/// A label with a text behind it.
fn labelled(label: &str, text: &str) -> (r: String)
    ensures
        r@ == label@ + text@,
{
    let mut out = label.to_owned();
    out.append(text);
    out
}

impl Error {
    /// The error in words.
    pub fn to_string(&self) -> (r: String)
        ensures
            r@ == self@.message(),
    {
        match self {
            Error::MalformedHeader => "malformed database header".to_owned(),
            Error::MalformedBtreeHeader => "malformed b-tree page header".to_owned(),
            Error::MalformedVarint => "malformed varint".to_owned(),
            Error::MalformedRecord => "malformed record".to_owned(),
            Error::UnknownPageKind(b) => numbered("invalid b-tree page type: ", *b as u64),
            Error::UnknownSerialType(n) => numbered("invalid serial type: ", *n),
            Error::InvalidPageNumber(n) => numbered("invalid page number: ", *n),
            Error::MalformedDDL(text) => labelled("malformed create statement: ", text.as_str()),
            Error::NoSuchTable(name) => labelled("no such table: ", name.as_str()),
            Error::MalformedSelect(text) => labelled(
                "malformed select statement: ",
                text.as_str(),
            ),
        }
    }
}

} // verus!
