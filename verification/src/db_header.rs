//! The database header: the first 100 bytes of the file.

use vstd::prelude::*;
use vstd::utf8::{decode_utf8, valid_utf8};
use crate::bytes::be_value;
use crate::error::Error;
use crate::pages::{be_u16, be_u32};

verus! {

/// The fields of the database header.
#[derive(Debug)]
pub struct DatabaseHeader {
    /// The first 15 bytes: the text that names the format.
    pub header_string: String,
    pub page_size: u16,
    pub file_format_write_version: u8,
    pub file_format_read_version: u8,
    pub reserved_space: u8,
    pub max_embedded_payload_fraction: u8,
    pub min_embedded_payload_fraction: u8,
    pub leaf_payload_fraction: u8,
    pub file_change_counter: u32,
    pub database_size: u32,
    pub first_freelist_trunk_page: u32,
    pub total_freelist_pages: u32,
    pub schema_cookie: u32,
    pub schema_format_number: u32,
    pub default_page_cache_size: u32,
    pub largest_root_btree_page_number: u32,
    pub database_text_encoding: u32,
    pub user_version: u32,
    pub incremental_vacuum_mode: u32,
    pub application_id: u32,
    pub version_valid_for: u32,
    pub sqlite_version_number: u32,
}

/// The two-byte big-endian number at offset `at`.
pub open spec fn u16_at(bytes: Seq<u8>, at: int) -> u16 {
    be_value(bytes.subrange(at, at + 2)) as u16
}

/// The four-byte big-endian number at offset `at`.
pub open spec fn u32_at(bytes: Seq<u8>, at: int) -> u32 {
    be_value(bytes.subrange(at, at + 4)) as u32
}

impl DatabaseHeader {
    /// Whether `bytes` start with a database header: 100 bytes, the first 15
    /// of them text.
    pub open spec fn readable(bytes: Seq<u8>) -> bool {
        bytes.len() >= 100 && valid_utf8(bytes.subrange(0, 15))
    }

    /// Whether this is the header that `bytes` start with, field by field at
    /// the offsets of the file format.
    pub open spec fn read_from(&self, bytes: Seq<u8>) -> bool {
        &&& self.header_string@ == decode_utf8(bytes.subrange(0, 15))
        &&& self.page_size == u16_at(bytes, 16)
        &&& self.file_format_write_version == bytes[18]
        &&& self.file_format_read_version == bytes[19]
        &&& self.reserved_space == bytes[20]
        &&& self.max_embedded_payload_fraction == bytes[21]
        &&& self.min_embedded_payload_fraction == bytes[22]
        &&& self.leaf_payload_fraction == bytes[23]
        &&& self.file_change_counter == u32_at(bytes, 24)
        &&& self.database_size == u32_at(bytes, 28)
        &&& self.first_freelist_trunk_page == u32_at(bytes, 32)
        &&& self.total_freelist_pages == u32_at(bytes, 36)
        &&& self.schema_cookie == u32_at(bytes, 40)
        &&& self.schema_format_number == u32_at(bytes, 44)
        &&& self.default_page_cache_size == u32_at(bytes, 48)
        &&& self.largest_root_btree_page_number == u32_at(bytes, 52)
        &&& self.database_text_encoding == u32_at(bytes, 56)
        &&& self.user_version == u32_at(bytes, 60)
        &&& self.incremental_vacuum_mode == u32_at(bytes, 64)
        &&& self.application_id == u32_at(bytes, 68)
        &&& self.version_valid_for == u32_at(bytes, 92)
        &&& self.sqlite_version_number == u32_at(bytes, 96)
    }

    /// Reads the database header at the start of `input`. Gives `input` back
    /// with the header: the header takes nothing from it.
    pub fn new(input: &[u8]) -> (r: Result<(&[u8], DatabaseHeader), Error>)
        ensures
            match r {
                Ok((rest, header)) => Self::readable(input@) && header.read_from(input@) && rest@
                    == input@,
                Err(e) => !Self::readable(input@) && e == Error::MalformedHeader,
            },
    {
        if input.len() < 100 {
            return Err(Error::MalformedHeader);
        }
        let header_string = match text_of_utf8(&input[0..15]) {
            Some(text) => text,
            None => {
                return Err(Error::MalformedHeader);
            },
        };
        Ok(
            (
                input,
                DatabaseHeader {
                    header_string,
                    page_size: be_u16(input, 16),
                    file_format_write_version: input[18],
                    file_format_read_version: input[19],
                    reserved_space: input[20],
                    max_embedded_payload_fraction: input[21],
                    min_embedded_payload_fraction: input[22],
                    leaf_payload_fraction: input[23],
                    file_change_counter: be_u32(input, 24),
                    database_size: be_u32(input, 28),
                    first_freelist_trunk_page: be_u32(input, 32),
                    total_freelist_pages: be_u32(input, 36),
                    schema_cookie: be_u32(input, 40),
                    schema_format_number: be_u32(input, 44),
                    default_page_cache_size: be_u32(input, 48),
                    largest_root_btree_page_number: be_u32(input, 52),
                    database_text_encoding: be_u32(input, 56),
                    user_version: be_u32(input, 60),
                    incremental_vacuum_mode: be_u32(input, 64),
                    application_id: be_u32(input, 68),
                    version_valid_for: be_u32(input, 92),
                    sqlite_version_number: be_u32(input, 96),
                },
            ),
        )
    }
}

/// Reads the database header at the start of `input`, as
/// [`DatabaseHeader::new`] does.
pub fn parse_db_header(input: &[u8]) -> (r: Result<(&[u8], DatabaseHeader), Error>)
    ensures
        match r {
            Ok((rest, header)) => DatabaseHeader::readable(input@) && header.read_from(input@)
                && rest@ == input@,
            Err(e) => !DatabaseHeader::readable(input@) && e == Error::MalformedHeader,
        },
{
    DatabaseHeader::new(input)
}

/// Calls `String::from_utf8` on a copy of `bytes`. It gives the text that the
/// bytes encode where they are UTF-8, and fails where they are not.
#[verifier::external_body]
pub(crate) fn text_of_utf8(bytes: &[u8]) -> (r: Option<String>)
    ensures
        match r {
            Some(text) => valid_utf8(bytes@) && text@ == decode_utf8(bytes@),
            None => !valid_utf8(bytes@),
        },
{
    String::from_utf8(bytes.to_vec()).ok()
}

} // verus!
