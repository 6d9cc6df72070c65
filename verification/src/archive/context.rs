//! Packing Dockerfile text into a build context.

use vstd::prelude::*;
use vstd::string::StringExecFns;
use vstd::utf8::{decode_utf8, encode_utf8};
use super::gzip::{compressed, encoder_finish, encoder_write_all, new_encoder};
use super::layout::{
    checksum, ends_after_first_entry, entry_header, field_at, first_entry_data, first_entry_mode,
    first_entry_name, first_entry_size, is_entry_name, lemma_octal_digit_is_ascii,
    lemma_octal_digits_len, lemma_octal_digits_read_back, lemma_size_field_reads_back,
    lemma_until_nul, numeric_field_value, octal_digits, octal_field, octal_limit, padding,
    single_entry_archive,
    gnu_magic, gnu_version, size_field, with_field, zeros, BLOCK_SIZE, CHECKSUM_AT, CHECKSUM_LEN,
    MAGIC_AT, MODE_AT, MODE_LEN, MTIME_AT, MTIME_LEN, NAME_AT, NAME_LEN, SIZE_AT, SIZE_LEN,
    TYPE_AT, VERSION_AT,
};
use super::tar::{
    append_entry, finish_archive, header_block, io_error_text, new_builder,
    new_gnu_header, set_header_checksum, set_header_mode, set_header_path, set_header_size,
};

verus! {

/// The mode of the archive's one entry.
pub const ENTRY_MODE: u32 = 0o755;

/// The name of the archive's one entry, as bytes.
pub open spec fn entry_name() -> Seq<u8> {
    encode_utf8("Dockerfile"@)
}

/// The uncompressed archive that holds `text` as the file `Dockerfile`.
pub open spec fn context_archive(text: Seq<char>) -> Seq<u8> {
    single_entry_archive(entry_name(), ENTRY_MODE as nat, encode_utf8(text))
}

/// The build context of `text`: the gzip stream of the archive that holds
/// `text` as the file `Dockerfile`, or nothing where the compressor fails
/// on that archive.
pub open spec fn context_of(text: Seq<char>) -> Option<Seq<u8>> {
    compressed(context_archive(text))
}

/// Whether `bytes` is the build context of `text`.
pub open spec fn is_context_of(text: Seq<char>, bytes: Seq<u8>) -> bool {
    context_of(text) == Some(bytes)
}

/// Why a build context could not be made.
#[derive(Debug, Clone, PartialEq, Eq)]
pub enum ArchiveError {
    /// Writing the archive failed.
    Construction { message: String },
    /// Compressing the archive failed.
    Compression { message: String },
}

impl ArchiveError {
    /// The error as one line of text: its kind, then the cause.
    pub fn to_string(&self) -> (text: String)
        ensures
            text@ == match *self {
                ArchiveError::Construction { message } => "cannot write the build context: "@
                    + message@,
                ArchiveError::Compression { message } => "cannot compress the build context: "@
                    + message@,
            },
    {
        match self {
            ArchiveError::Construction { message } => {
                "cannot write the build context: ".to_owned().concat(message.as_str())
            },
            ArchiveError::Compression { message } => {
                "cannot compress the build context: ".to_owned().concat(message.as_str())
            },
        }
    }
}

/// Overwriting a field leaves the block's length alone and puts the field
/// where it was asked for; bytes outside it stay as they were.
pub proof fn lemma_with_field(block: Seq<u8>, at: int, field: Seq<u8>)
    requires
        0 <= at,
        at + field.len() <= block.len(),
    ensures
        with_field(block, at, field).len() == block.len(),
        field_at(with_field(block, at, field), at, field.len() as int) == field,
        forall|i: int|
            0 <= i < block.len() && !(at <= i < at + field.len()) ==> #[trigger] with_field(
                block,
                at,
                field,
            )[i] == block[i],
{
}

/// What the header of a file entry holds, field by field: the name closed
/// by a NUL, the mode and the size as they were asked for, the type of a
/// regular file, and a checksum that is the header's own.
pub proof fn lemma_entry_header_fields(name: Seq<u8>, size: u64, mode: u32)
    requires
        0 < name.len() < NAME_LEN,
        mode <= 0o7777777,
    ensures
        entry_header(name, size as nat, mode as nat).len() == BLOCK_SIZE,
        field_at(
            entry_header(name, size as nat, mode as nat),
            NAME_AT as int,
            (name.len() + 1) as int,
        ) == name.push(0u8),
        field_at(entry_header(name, size as nat, mode as nat), MODE_AT as int, MODE_LEN as int)
            == octal_field(mode as nat, MODE_LEN as nat),
        field_at(entry_header(name, size as nat, mode as nat), SIZE_AT as int, SIZE_LEN as int)
            == size_field(size as nat),
        numeric_field_value(
            field_at(entry_header(name, size as nat, mode as nat), SIZE_AT as int, SIZE_LEN as int),
        ) == size,
        field_at(
            entry_header(name, size as nat, mode as nat),
            CHECKSUM_AT as int,
            CHECKSUM_LEN as int,
        ) == octal_field(
            checksum(entry_header(name, size as nat, mode as nat)),
            CHECKSUM_LEN as nat,
        ),
        entry_header(name, size as nat, mode as nat)[TYPE_AT as int] == 0,
{
    let blank = super::layout::blank_gnu_header();
    assert(blank.len() == BLOCK_SIZE) by {
        lemma_octal_digits_len(0, 11);
    }
    let named = with_field(blank, NAME_AT as int, name.push(0u8));
    lemma_with_field(blank, NAME_AT as int, name.push(0u8));
    lemma_size_field_reads_back(size);
    let sized = with_field(named, SIZE_AT as int, size_field(size as nat));
    lemma_with_field(named, SIZE_AT as int, size_field(size as nat));
    let mode_field = octal_field(mode as nat, MODE_LEN as nat);
    assert(mode_field.len() == MODE_LEN) by {
        lemma_octal_digits_len(mode as nat, 7);
    }
    let moded = with_field(sized, MODE_AT as int, mode_field);
    lemma_with_field(sized, MODE_AT as int, mode_field);
    let sum_field = octal_field(checksum(moded), CHECKSUM_LEN as nat);
    assert(sum_field.len() == CHECKSUM_LEN) by {
        lemma_octal_digits_len(checksum(moded), 7);
    }
    let header = with_field(moded, CHECKSUM_AT as int, sum_field);
    lemma_with_field(moded, CHECKSUM_AT as int, sum_field);
    assert(header == entry_header(name, size as nat, mode as nat));
    let spaces = Seq::new(CHECKSUM_LEN as nat, |i: int| 0x20u8);
    assert(with_field(header, CHECKSUM_AT as int, spaces) == with_field(
        moded,
        CHECKSUM_AT as int,
        spaces,
    ));
    assert(checksum(header) == checksum(moded));
    assert(field_at(header, NAME_AT as int, (name.len() + 1) as int) == name.push(0u8));
    assert(field_at(header, MODE_AT as int, MODE_LEN as int) == mode_field);
    assert(field_at(header, SIZE_AT as int, SIZE_LEN as int) == size_field(size as nat));
    assert(header[TYPE_AT as int] == blank[TYPE_AT as int]);
    let empty = zeros(BLOCK_SIZE as nat);
    let marked = with_field(empty, MAGIC_AT as int, gnu_magic());
    lemma_with_field(empty, MAGIC_AT as int, gnu_magic());
    let versioned = with_field(marked, VERSION_AT as int, gnu_version());
    lemma_with_field(marked, VERSION_AT as int, gnu_version());
    let time_field = octal_field(0, MTIME_LEN as nat);
    assert(time_field.len() == MTIME_LEN) by {
        lemma_octal_digits_len(0, 11);
    }
    lemma_with_field(versioned, MTIME_AT as int, time_field);
    assert(blank[TYPE_AT as int] == versioned[TYPE_AT as int]);
    assert(versioned[TYPE_AT as int] == marked[TYPE_AT as int]);
    assert(marked[TYPE_AT as int] == empty[TYPE_AT as int]);
}

/// The entry's name is the ten ASCII bytes of `Dockerfile`.
pub proof fn lemma_entry_name()
    ensures
        is_entry_name("Dockerfile"@),
        entry_name() == seq![
            0x44u8,
            0x6fu8,
            0x63u8,
            0x6bu8,
            0x65u8,
            0x72u8,
            0x66u8,
            0x69u8,
            0x6cu8,
            0x65u8,
        ],
{
    reveal_strlit("Dockerfile");
    let name = "Dockerfile"@;
    assert(name.len() == 10);
    assert(vstd::utf8::is_ascii_chars(name));
    vstd::utf8::is_ascii_chars_encode_utf8(name);
    assert(entry_name() =~= seq![
        0x44u8,
        0x6fu8,
        0x63u8,
        0x6bu8,
        0x65u8,
        0x72u8,
        0x66u8,
        0x69u8,
        0x6cu8,
        0x65u8,
    ]);
}

/// The archive holds the text and nothing else. Read as a tar reader reads
/// it, its first entry is named `Dockerfile`, has mode 0755 and holds the
/// bytes of the text, which decode to the text again; after that entry the
/// archive ends; and it is a whole number of blocks long.
pub proof fn lemma_archive_reads_back(text: Seq<char>)
    requires
        encode_utf8(text).len() <= u64::MAX,
    ensures
        first_entry_name(context_archive(text)) == entry_name(),
        first_entry_mode(context_archive(text)) == ENTRY_MODE,
        first_entry_size(context_archive(text)) == encode_utf8(text).len(),
        first_entry_data(context_archive(text)) == encode_utf8(text),
        decode_utf8(first_entry_data(context_archive(text))) == text,
        ends_after_first_entry(context_archive(text)),
        context_archive(text).len() % (BLOCK_SIZE as nat) == 0,
{
    let data = encode_utf8(text);
    lemma_entry_name();
    lemma_entry_header_fields(entry_name(), data.len() as u64, ENTRY_MODE);
    let header = entry_header(entry_name(), data.len(), ENTRY_MODE as nat);
    let archive = context_archive(text);
    assert(archive.subrange(0, BLOCK_SIZE as int) == header);
    assert(field_at(archive, SIZE_AT as int, SIZE_LEN as int) == field_at(
        header,
        SIZE_AT as int,
        SIZE_LEN as int,
    ));
    assert(field_at(archive, MODE_AT as int, MODE_LEN as int) == field_at(
        header,
        MODE_AT as int,
        MODE_LEN as int,
    ));
    let mode_field = octal_field(ENTRY_MODE as nat, MODE_LEN as nat);
    assert(mode_field.first() < 0x80) by {
        lemma_octal_digit_is_ascii(ENTRY_MODE as nat, 7, 0);
        lemma_octal_digits_len(ENTRY_MODE as nat, 7);
    }
    assert(mode_field.drop_last() == octal_digits(ENTRY_MODE as nat, 7));
    assert(octal_limit(7) == 0o10000000) by {
        reveal_with_fuel(octal_limit, 8);
    }
    lemma_octal_digits_read_back(ENTRY_MODE as nat, 7);
    let name_field = field_at(archive, NAME_AT as int, NAME_LEN as int);
    let rest = name_field.subrange(11, NAME_LEN as int);
    assert(name_field.subrange(0, 11) == field_at(header, NAME_AT as int, 11));
    assert(name_field == entry_name().push(0u8) + rest);
    lemma_until_nul(entry_name(), rest);
    assert(first_entry_data(archive) == data);
    vstd::utf8::encode_utf8_decode_utf8(text);
    let end = BLOCK_SIZE + data.len() + padding(data.len());
    assert(archive.subrange(end, end + 2 * BLOCK_SIZE) == zeros(2 * BLOCK_SIZE as nat));
}

/// A text has one build context: two byte strings that are both the context
/// of the same text are equal, byte for byte.
pub proof fn lemma_context_deterministic(text: Seq<char>, first: Seq<u8>, second: Seq<u8>)
    requires
        is_context_of(text, first),
        is_context_of(text, second),
    ensures
        first == second,
{
}

/// Packs `text` into an uncompressed archive that holds it as the one file
/// `Dockerfile`, with mode 0755 and a modification time of zero.
///
/// The archive is written by the `tar` crate into memory. Its calls cannot
/// fail there, so the result is always the archive, and it is, byte for
/// byte, [`context_archive`] of the text.
pub fn build_archive(text: &str) -> (outcome: Result<Vec<u8>, ArchiveError>)
    ensures
        outcome matches Ok(bytes) && bytes@ == context_archive(text@),
{
    let data = text.as_bytes();
    let mut header = new_gnu_header();
    proof {
        lemma_entry_name();
    }
    match set_header_path(&mut header, "Dockerfile") {
        Ok(()) => {},
        Err(error) => {
            return Err(ArchiveError::Construction { message: io_error_text(&error) });
        },
    }
    set_header_size(&mut header, data.len() as u64);
    set_header_mode(&mut header, ENTRY_MODE);
    set_header_checksum(&mut header);
    assert(header_block(header) == entry_header(
        entry_name(),
        data@.len(),
        ENTRY_MODE as nat,
    ));
    let mut builder = new_builder();
    match append_entry(&mut builder, &header, data) {
        Ok(()) => {},
        Err(error) => {
            return Err(ArchiveError::Construction { message: io_error_text(&error) });
        },
    }
    match finish_archive(builder) {
        Ok(bytes) => {
            assert(bytes@ == context_archive(text@));
            Ok(bytes)
        },
        Err(error) => Err(ArchiveError::Construction { message: io_error_text(&error) }),
    }
}

/// Makes the build context of `text`: the archive of [`build_archive`],
/// compressed into a gzip stream.
///
/// The call succeeds exactly when the compressor does on that archive, and
/// the result is then the one context of the text, so that the same text
/// always gives the same bytes. Where the compressor reports an error, the
/// call fails with `Compression`.
pub fn build_context(text: &str) -> (outcome: Result<Vec<u8>, ArchiveError>)
    ensures
        match outcome {
            Ok(bytes) => context_of(text@) == Some(bytes@),
            Err(error) => context_of(text@) is None && error is Compression,
        },
{
    let archive = match build_archive(text) {
        Ok(archive) => archive,
        Err(error) => {
            return Err(error);
        },
    };
    let encoder = match encoder_write_all(new_encoder(), archive.as_slice()) {
        Ok(encoder) => encoder,
        Err(error) => {
            return Err(ArchiveError::Compression { message: io_error_text(&error) });
        },
    };
    match encoder_finish(encoder) {
        Ok(stream) => Ok(stream),
        Err(error) => Err(ArchiveError::Compression { message: io_error_text(&error) }),
    }
}

} // verus!
