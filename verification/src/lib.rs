//! A read-only query engine over the SQLite database file format.
//!
//! A [`db::Database`] holds the bytes of a database file. [`query::run`]
//! answers a `SELECT` statement on it: it finds the table in the catalogue on
//! the first page, chooses an index where a condition allows one, and walks
//! the B-tree pages for the rows.
//!
//! The layers, from the bytes up:
//!
//! - [`varint`], [`bytes`]: the integers of the file format;
//! - [`records`], [`payload`], [`value`], [`ordering`]: records and their values;
//! - [`db_header`], [`pages`], [`cells`]: the database header, B-tree pages
//!   and their cells;
//! - [`schemas`], [`tables`], [`ddl`]: the catalogue and the tables that its
//!   statements declare;
//! - [`lexer`], [`sql`], [`conditions`]: `SELECT` statements and their conditions;
//! - [`walk`], [`db`], [`query`]: the search through the B-trees;
//! - [`info`], [`commands`]: what a shell around the engine shows and reads.
//!
//! Every function states what it returns over the bytes or the text that it
//! is given, and is proved to return that. Doubles are held as their 64 bits:
//! the engine orders them and cuts them off to whole numbers, and leaves
//! reading and writing them in decimal to its caller.

pub mod bytes;
pub mod cells;
pub mod commands;
pub mod conditions;
pub mod db;
pub mod db_header;
pub mod ddl;
pub mod decimal;
pub mod error;
pub mod info;
pub mod lexer;
pub mod ordering;
pub mod pages;
pub mod payload;
pub mod query;
pub mod records;
pub mod schemas;
pub mod sql;
pub mod tables;
pub mod text;
pub mod value;
pub mod varint;
pub mod walk;
