//! Calls into the `tar` crate, each with what the crate's source shows it
//! to write.

use vstd::prelude::*;
use vstd::string::StringSliceAdditionalSpecFns;
use super::layout::{
    blank_gnu_header, checksum, is_entry_name, octal_field, padding, size_field, with_field, zeros,
    BLOCK_SIZE, CHECKSUM_AT, CHECKSUM_LEN, MODE_AT, MODE_LEN, NAME_AT, SIZE_AT,
};

verus! {

/// The 512 bytes of a `tar::Header`.
pub uninterp spec fn header_block(header: tar::Header) -> Seq<u8>;

/// A `tar::Builder` that writes into a `Vec<u8>`.
#[verifier::external_body]
pub struct ArchiveBuilder {
    inner: tar::Builder<Vec<u8>>,
}

/// The bytes that an [`ArchiveBuilder`] has written so far.
pub uninterp spec fn archive_written(builder: ArchiveBuilder) -> Seq<u8>;

/// The largest mode that seven octal digits write.
pub const MODE_LIMIT: u32 = 0o7777777;

/// Calls `tar::Header::new_gnu`: a zeroed block in which the crate sets the
/// GNU magic and version and a modification time of zero.
#[verifier::external_body]
pub(crate) fn new_gnu_header() -> (header: tar::Header)
    ensures
        header_block(header) == blank_gnu_header(),
{
    tar::Header::new_gnu()
}

/// Calls `tar::Header::set_path`. The contract speaks of plain file names
/// shorter than the name field only. The crate refuses a path that is too
/// long, holds a NUL, is absolute or has a `..` component; such a name is
/// none of these, so the call succeeds. It copies the name's bytes to the
/// start of the name field and puts a NUL after them; nothing else changes.
#[verifier::external_body]
pub(crate) fn set_header_path(header: &mut tar::Header, name: &str) -> (outcome: Result<
    (),
    std::io::Error,
>)
    requires
        is_entry_name(name@),
    ensures
        outcome is Ok,
        header_block(*final(header)) == with_field(
            header_block(*old(header)),
            NAME_AT as int,
            name.spec_bytes().push(0u8),
        ),
{
    header.set_path(name)
}

/// Calls `tar::Header::set_size`: the crate rewrites the size field, in
/// octal where the size is below eight to the eleventh, else in binary.
#[verifier::external_body]
pub(crate) fn set_header_size(header: &mut tar::Header, size: u64)
    ensures
        header_block(*final(header)) == with_field(
            header_block(*old(header)),
            SIZE_AT as int,
            size_field(size as nat),
        ),
{
    header.set_size(size)
}

/// Calls `tar::Header::set_mode`: the crate rewrites the mode field as
/// seven octal digits and a NUL.
#[verifier::external_body]
pub(crate) fn set_header_mode(header: &mut tar::Header, mode: u32)
    requires
        mode <= MODE_LIMIT,
    ensures
        header_block(*final(header)) == with_field(
            header_block(*old(header)),
            MODE_AT as int,
            octal_field(mode as nat, MODE_LEN as nat),
        ),
{
    header.set_mode(mode)
}

/// Calls `tar::Header::set_cksum`: the crate sums the block's bytes, taking
/// the checksum field as spaces, and writes the sum into that field as
/// seven octal digits and a NUL.
#[verifier::external_body]
pub(crate) fn set_header_checksum(header: &mut tar::Header)
    ensures
        header_block(*final(header)) == with_field(
            header_block(*old(header)),
            CHECKSUM_AT as int,
            octal_field(checksum(header_block(*old(header))), CHECKSUM_LEN as nat),
        ),
{
    header.set_cksum()
}

/// Calls `tar::Builder::new` on an empty `Vec<u8>`: nothing is written yet.
#[verifier::external_body]
pub(crate) fn new_builder() -> (builder: ArchiveBuilder)
    ensures
        archive_written(builder) == Seq::<u8>::empty(),
{
    ArchiveBuilder { inner: tar::Builder::new(Vec::new()) }
}

/// Calls `tar::Builder::append`. The crate writes the header's block, then
/// the data, then zeros up to the next multiple of the block size. The call
/// fails only where reading the data or writing the archive fails; here the
/// data is a slice and the archive a `Vec<u8>`, and neither ever does.
#[verifier::external_body]
pub(crate) fn append_entry(
    builder: &mut ArchiveBuilder,
    header: &tar::Header,
    data: &[u8],
) -> (outcome: Result<(), std::io::Error>)
    ensures
        outcome is Ok,
        archive_written(*final(builder)) == archive_written(*old(builder)) + header_block(
            *header,
        ) + data@ + zeros(padding(data@.len())),
{
    builder.inner.append(header, data)
}

/// Calls `tar::Builder::into_inner`. The crate ends the archive with two
/// blocks of zeros and hands back all that was written. The call fails only
/// where writing the archive fails, which writing into a `Vec<u8>` never
/// does.
#[verifier::external_body]
pub(crate) fn finish_archive(builder: ArchiveBuilder) -> (outcome: Result<
    Vec<u8>,
    std::io::Error,
>)
    ensures
        outcome is Ok,
        outcome matches Ok(bytes) ==> bytes@ == archive_written(builder) + zeros(
            2 * BLOCK_SIZE as nat,
        ),
{
    builder.inner.into_inner()
}

/// Renders a `std::io::Error` through its `Display` impl. Nothing is
/// claimed of the text: for an error of the operating system it depends on
/// the machine.
#[verifier::external_body]
pub(crate) fn io_error_text(error: &std::io::Error) -> (text: String) {
    error.to_string()
}

} // verus!
