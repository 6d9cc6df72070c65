//! Calls into the `flate2` crate, which compresses the archive.
//!
//! The encoder writes into memory, so that whether it succeeds, and what it
//! writes, depends on nothing but the bytes it is given.

use vstd::prelude::*;

verus! {

/// A `flate2::write::GzEncoder` that writes into a `Vec<u8>`.
#[verifier::external_body]
pub struct GzipEncoder {
    inner: flate2::write::GzEncoder<Vec<u8>>,
}

/// The bytes that a [`GzipEncoder`] has taken in to compress.
pub uninterp spec fn encoder_input(encoder: GzipEncoder) -> Seq<u8>;

/// Whether a fresh encoder at the default compression level takes `data`,
/// given to it in one piece, without reporting an error.
pub uninterp spec fn encoder_takes(data: Seq<u8>) -> bool;

/// What an encoder at the default compression level that took in `data`,
/// in one piece or not at all, ends with: the whole gzip stream, or nothing
/// where it reports an error. The stream's header is the one `flate2`
/// writes by default: no time stamp, no file name.
pub uninterp spec fn gzip_outcome(data: Seq<u8>) -> Option<Seq<u8>>;

/// The gzip stream of `data`: what comes of giving `data` to a fresh encoder
/// and ending it, if neither step reports an error.
pub open spec fn compressed(data: Seq<u8>) -> Option<Seq<u8>> {
    if encoder_takes(data) {
        gzip_outcome(data)
    } else {
        None
    }
}

/// Calls `flate2::write::GzEncoder::new` on an empty `Vec<u8>` with
/// `flate2::Compression::default()`: the encoder has taken in nothing yet.
#[verifier::external_body]
pub(crate) fn new_encoder() -> (encoder: GzipEncoder)
    ensures
        encoder_input(encoder) == Seq::<u8>::empty(),
{
    GzipEncoder {
        inner: flate2::write::GzEncoder::new(Vec::new(), flate2::Compression::default()),
    }
}

/// Calls `std::io::Write::write_all` on an encoder that has taken in
/// nothing yet, and hands the encoder back where the call succeeds. The
/// contract names whether it succeeds; an encoder that comes back has taken
/// in all of `data`.
#[verifier::external_body]
pub(crate) fn encoder_write_all(encoder: GzipEncoder, data: &[u8]) -> (outcome: Result<
    GzipEncoder,
    std::io::Error,
>)
    requires
        encoder_input(encoder) == Seq::<u8>::empty(),
    ensures
        match outcome {
            Ok(fed) => encoder_takes(data@) && encoder_input(fed) == data@,
            Err(_) => !encoder_takes(data@),
        },
{
    let mut encoder = encoder;
    match std::io::Write::write_all(&mut encoder.inner, data) {
        Ok(()) => Ok(encoder),
        Err(error) => Err(error),
    }
}

/// Calls `flate2::write::GzEncoder::finish`. The contract names what comes
/// back: the whole gzip stream of what the encoder took in, or an error.
#[verifier::external_body]
pub(crate) fn encoder_finish(encoder: GzipEncoder) -> (outcome: Result<Vec<u8>, std::io::Error>)
    ensures
        match outcome {
            Ok(stream) => gzip_outcome(encoder_input(encoder)) == Some(stream@),
            Err(_) => gzip_outcome(encoder_input(encoder)) is None,
        },
{
    encoder.inner.finish()
}

} // verus!
