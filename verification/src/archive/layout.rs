//! The layout of the build-context archive before it is compressed: one
//! 512-byte GNU tar header, the file's bytes padded with zeros to a whole
//! number of blocks, and two blocks of zeros that end the archive.

use vstd::prelude::*;

verus! {

/// The size of an archive block, in bytes.
pub const BLOCK_SIZE: usize = 512;

/// Where the header's fields start, and how long they are.
pub const NAME_AT: usize = 0;

pub const NAME_LEN: usize = 100;

pub const MODE_AT: usize = 100;

pub const MODE_LEN: usize = 8;

pub const SIZE_AT: usize = 124;

pub const SIZE_LEN: usize = 12;

pub const MTIME_AT: usize = 136;

pub const MTIME_LEN: usize = 12;

pub const CHECKSUM_AT: usize = 148;

pub const CHECKSUM_LEN: usize = 8;

pub const TYPE_AT: usize = 156;

pub const MAGIC_AT: usize = 257;

pub const VERSION_AT: usize = 263;

/// The smallest size that no longer fits the size field in octal.
pub const OCTAL_SIZE_LIMIT: u64 = 0o100000000000;

/// `n` zero bytes.
pub open spec fn zeros(n: nat) -> Seq<u8> {
    Seq::new(n, |i: int| 0u8)
}

/// `block` with the bytes from position `at` on overwritten by `field`.
pub open spec fn with_field(block: Seq<u8>, at: int, field: Seq<u8>) -> Seq<u8> {
    block.subrange(0, at) + field + block.subrange(at + field.len(), block.len() as int)
}

/// The `len` bytes of `block` that start at `at`.
pub open spec fn field_at(block: Seq<u8>, at: int, len: int) -> Seq<u8> {
    block.subrange(at, at + len)
}

/// The last `width` octal digits of `value` as ASCII, most significant
/// first, with leading zeros.
pub open spec fn octal_digits(value: nat, width: nat) -> Seq<u8>
    decreases width,
{
    if width == 0 {
        Seq::empty()
    } else {
        octal_digits(value / 8, (width - 1) as nat).push((48 + value % 8) as u8)
    }
}

/// A numeric header field of `len` bytes in octal: the digits, then a NUL.
pub open spec fn octal_field(value: nat, len: nat) -> Seq<u8> {
    octal_digits(value, (len - 1) as nat).push(0u8)
}

/// The last `width` bytes of `value` written in base 256, most significant
/// first.
pub open spec fn base256_digits(value: nat, width: nat) -> Seq<u8>
    decreases width,
{
    if width == 0 {
        Seq::empty()
    } else {
        base256_digits(value / 256, (width - 1) as nat).push((value % 256) as u8)
    }
}

/// A twelve-byte numeric header field in binary, for values too large for
/// octal: a marker byte, three zeros, and the value in eight bytes.
pub open spec fn binary_field(value: nat) -> Seq<u8> {
    seq![0x80u8, 0u8, 0u8, 0u8] + base256_digits(value, 8)
}

/// The size field of a header: octal where the size fits, binary where it
/// does not.
pub open spec fn size_field(size: nat) -> Seq<u8> {
    if size < OCTAL_SIZE_LIMIT {
        octal_field(size, SIZE_LEN as nat)
    } else {
        binary_field(size)
    }
}

/// The sum of the bytes of `s`.
pub open spec fn byte_sum(s: Seq<u8>) -> nat
    decreases s.len(),
{
    if s.len() == 0 {
        0
    } else {
        byte_sum(s.drop_last()) + s.last() as nat
    }
}

/// The checksum of a header block: the sum of its bytes, the checksum field
/// itself counted as eight spaces.
pub open spec fn checksum(block: Seq<u8>) -> nat {
    byte_sum(with_field(block, CHECKSUM_AT as int, Seq::new(CHECKSUM_LEN as nat, |i: int| 0x20u8)))
}

/// The bytes `ustar ` that mark a GNU header.
pub open spec fn gnu_magic() -> Seq<u8> {
    seq![0x75u8, 0x73u8, 0x74u8, 0x61u8, 0x72u8, 0x20u8]
}

/// The version bytes of a GNU header: a space and a NUL.
pub open spec fn gnu_version() -> Seq<u8> {
    seq![0x20u8, 0u8]
}

/// A GNU header with nothing set: zeros, but for the GNU marker and a
/// modification time of zero.
pub open spec fn blank_gnu_header() -> Seq<u8> {
    with_field(
        with_field(
            with_field(zeros(BLOCK_SIZE as nat), MAGIC_AT as int, gnu_magic()),
            VERSION_AT as int,
            gnu_version(),
        ),
        MTIME_AT as int,
        octal_field(0, MTIME_LEN as nat),
    )
}

/// Whether `name` can stand in a header as the name of a plain file: not
/// empty, shorter than the name field, and made of ASCII letters, digits,
/// `_` and `-` alone.
pub open spec fn is_entry_name(name: Seq<char>) -> bool {
    &&& 0 < name.len() < NAME_LEN
    &&& forall|i: int|
        0 <= i < name.len() ==> {
            let c = #[trigger] name[i];
            ||| 'a' <= c <= 'z'
            ||| 'A' <= c <= 'Z'
            ||| '0' <= c <= '9'
            ||| c == '_'
            ||| c == '-'
        }
}

/// The header block of a file entry: a blank GNU header in which the name,
/// the size and the mode are set, in that order, and then the checksum.
pub open spec fn entry_header(name: Seq<u8>, size: nat, mode: nat) -> Seq<u8> {
    let named = with_field(blank_gnu_header(), NAME_AT as int, name.push(0u8));
    let sized = with_field(named, SIZE_AT as int, size_field(size));
    let moded = with_field(sized, MODE_AT as int, octal_field(mode, MODE_LEN as nat));
    with_field(moded, CHECKSUM_AT as int, octal_field(checksum(moded), CHECKSUM_LEN as nat))
}

/// How many zero bytes fill `len` bytes of data up to a whole block.
pub open spec fn padding(len: nat) -> nat {
    ((BLOCK_SIZE - len % (BLOCK_SIZE as nat)) % (BLOCK_SIZE as int)) as nat
}

/// An archive of one file: its header, its bytes, the padding, and the two
/// zero blocks that end an archive.
pub open spec fn single_entry_archive(name: Seq<u8>, mode: nat, data: Seq<u8>) -> Seq<u8> {
    entry_header(name, data.len(), mode) + data + zeros(padding(data.len())) + zeros(
        2 * BLOCK_SIZE as nat,
    )
}

/// The number that a run of ASCII octal digits writes.
pub open spec fn octal_value(digits: Seq<u8>) -> nat
    decreases digits.len(),
{
    if digits.len() == 0 {
        0
    } else {
        (8 * octal_value(digits.drop_last()) + (digits.last() - 48)) as nat
    }
}

/// The number that a run of bytes writes in base 256.
pub open spec fn base256_value(digits: Seq<u8>) -> nat
    decreases digits.len(),
{
    if digits.len() == 0 {
        0
    } else {
        256 * base256_value(digits.drop_last()) + digits.last() as nat
    }
}

/// The number a numeric header field holds, read as a tar reader does: in
/// binary from the last eight bytes where the first byte has its high bit
/// set, else in octal from the digits before the closing NUL.
pub open spec fn numeric_field_value(field: Seq<u8>) -> nat {
    if field.len() > 0 && field.first() >= 0x80 {
        base256_value(field.skip(field.len() - 8))
    } else {
        octal_value(field.drop_last())
    }
}

/// The bytes of `field` before its first NUL; all of them where it holds
/// none. This is how a text field of a header is read.
pub open spec fn until_nul(field: Seq<u8>) -> Seq<u8>
    decreases field.len(),
{
    if field.len() == 0 || field.first() == 0 {
        Seq::empty()
    } else {
        seq![field.first()] + until_nul(field.drop_first())
    }
}

/// The name that the first header of an archive gives its entry.
pub open spec fn first_entry_name(archive: Seq<u8>) -> Seq<u8> {
    until_nul(field_at(archive, NAME_AT as int, NAME_LEN as int))
}

/// The mode that the first header of an archive gives its entry.
pub open spec fn first_entry_mode(archive: Seq<u8>) -> nat {
    numeric_field_value(field_at(archive, MODE_AT as int, MODE_LEN as int))
}

/// The size that the first header of an archive gives its entry.
pub open spec fn first_entry_size(archive: Seq<u8>) -> nat {
    numeric_field_value(field_at(archive, SIZE_AT as int, SIZE_LEN as int))
}

/// The bytes of the first entry of an archive: as many as its header says,
/// from the block after the header on.
pub open spec fn first_entry_data(archive: Seq<u8>) -> Seq<u8> {
    archive.subrange(BLOCK_SIZE as int, BLOCK_SIZE + first_entry_size(archive))
}

/// Whether an archive ends after its first entry: past the entry's data
/// and padding stand two blocks of zeros and nothing more.
pub open spec fn ends_after_first_entry(archive: Seq<u8>) -> bool {
    let end = BLOCK_SIZE + first_entry_size(archive) + padding(first_entry_size(archive));
    &&& archive.len() == end + 2 * BLOCK_SIZE
    &&& archive.subrange(end, end + 2 * BLOCK_SIZE) == zeros(2 * BLOCK_SIZE as nat)
}

/// Text without a NUL reads back whole from a field in which a NUL
/// follows it.
pub proof fn lemma_until_nul(text: Seq<u8>, rest: Seq<u8>)
    requires
        forall|i: int| 0 <= i < text.len() ==> text[i] != 0,
    ensures
        until_nul(text.push(0u8) + rest) == text,
    decreases text.len(),
{
    let field = text.push(0u8) + rest;
    if text.len() == 0 {
        assert(field.first() == 0);
    } else {
        assert(field.first() == text[0]);
        let shorter = text.drop_first();
        assert(field.drop_first() == shorter.push(0u8) + rest);
        lemma_until_nul(shorter, rest);
        assert(seq![text[0]] + shorter == text);
    }
}

/// Eight to the power `width`: one more than the largest number that
/// `width` octal digits write.
pub open spec fn octal_limit(width: nat) -> nat
    decreases width,
{
    if width == 0 {
        1
    } else {
        8 * octal_limit((width - 1) as nat)
    }
}

/// 256 to the power `width`.
pub open spec fn base256_limit(width: nat) -> nat
    decreases width,
{
    if width == 0 {
        1
    } else {
        256 * base256_limit((width - 1) as nat)
    }
}

/// `width` octal digits are `width` bytes.
pub proof fn lemma_octal_digits_len(value: nat, width: nat)
    ensures
        octal_digits(value, width).len() == width,
    decreases width,
{
    if width > 0 {
        lemma_octal_digits_len(value / 8, (width - 1) as nat);
    }
}

/// `width` digits in base 256 are `width` bytes.
pub proof fn lemma_base256_digits_len(value: nat, width: nat)
    ensures
        base256_digits(value, width).len() == width,
    decreases width,
{
    if width > 0 {
        lemma_base256_digits_len(value / 256, (width - 1) as nat);
    }
}

/// Octal digits read back as the number they were written from, where the
/// number fits the width.
pub proof fn lemma_octal_digits_read_back(value: nat, width: nat)
    requires
        value < octal_limit(width),
    ensures
        octal_value(octal_digits(value, width)) == value,
    decreases width,
{
    if width > 0 {
        let digits = octal_digits(value, width);
        assert(digits.drop_last() == octal_digits(value / 8, (width - 1) as nat));
        assert(digits.last() == (48 + value % 8) as u8);
        lemma_octal_digits_read_back(value / 8, (width - 1) as nat);
    }
}

/// Base-256 digits read back as the number they were written from, where
/// the number fits the width.
pub proof fn lemma_base256_digits_read_back(value: nat, width: nat)
    requires
        value < base256_limit(width),
    ensures
        base256_value(base256_digits(value, width)) == value,
    decreases width,
{
    if width > 0 {
        let digits = base256_digits(value, width);
        assert(digits.drop_last() == base256_digits(value / 256, (width - 1) as nat));
        assert(digits.last() == (value % 256) as u8);
        lemma_base256_digits_read_back(value / 256, (width - 1) as nat);
    }
}

/// The size field holds the size exactly: whatever size is written, a
/// reader gets that size back.
pub proof fn lemma_size_field_reads_back(size: u64)
    ensures
        size_field(size as nat).len() == SIZE_LEN,
        numeric_field_value(size_field(size as nat)) == size,
{
    let n = size as nat;
    if size < OCTAL_SIZE_LIMIT {
        assert(octal_limit(11) == 0o100000000000) by {
            reveal_with_fuel(octal_limit, 12);
        }
        lemma_octal_digits_len(n, 11);
        lemma_octal_digits_read_back(n, 11);
        let field = octal_field(n, 12);
        assert(field.drop_last() == octal_digits(n, 11));
        assert(field.first() == octal_digits(n, 11).first());
        assert(octal_digits(n, 11).first() < 0x80) by {
            lemma_octal_digit_is_ascii(n, 11, 0);
        }
    } else {
        assert(base256_limit(8) == 0x1_0000_0000_0000_0000) by {
            reveal_with_fuel(base256_limit, 9);
        }
        lemma_base256_digits_len(n, 8);
        lemma_base256_digits_read_back(n, 8);
        let field = binary_field(n);
        assert(field.skip(field.len() - 8) == base256_digits(n, 8));
        assert(field.first() == 0x80u8);
    }
}

/// Every octal digit written is one of the ASCII characters `0` to `7`.
pub proof fn lemma_octal_digit_is_ascii(value: nat, width: nat, i: int)
    requires
        0 <= i < width,
    ensures
        48 <= octal_digits(value, width)[i] <= 55,
    decreases width,
{
    lemma_octal_digits_len(value / 8, (width - 1) as nat);
    if i < width - 1 {
        lemma_octal_digit_is_ascii(value / 8, (width - 1) as nat, i);
    }
}

} // verus!
