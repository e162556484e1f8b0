//! The gzip container of the PC variant of a save.
//!
//! The two functions of this module are not verified: Verus takes their
//! contracts on trust. They name what the codec returns and claim nothing
//! else about it.

use flate2::read::GzDecoder;
use flate2::write::GzEncoder;
use flate2::Compression;
use vstd::prelude::*;

verus! {

/// The gzip stream that the encoder writes for the data at its default
/// level, or nothing where it does not finish the stream.
pub uninterp spec fn gzip_encoded(data: Seq<u8>) -> Option<Seq<u8>>;

/// The data that the decoder reads from the first member of a gzip stream, or
/// nothing where the bytes are no such stream.
pub uninterp spec fn gzip_decoded(compressed: Seq<u8>) -> Option<Seq<u8>>;

/// Compresses with `flate2::write::GzEncoder` at `Compression::default()`,
/// into a vector.
///
/// Trusted: the result is what the encoder wrote, or `None` where writing or
/// finishing the stream reported an error. Nothing is claimed about the
/// bytes of the stream.
#[verifier::external_body]
pub(crate) fn gzip_encode(data: &[u8]) -> (compressed: Option<Vec<u8>>)
    ensures
        compressed is None ==> gzip_encoded(data@) is None,
        compressed matches Some(bytes) ==> gzip_encoded(data@) == Some(bytes@),
{
    let mut encoder = GzEncoder::new(Vec::new(), Compression::default());
    match std::io::Write::write_all(&mut encoder, data) {
        Ok(_) => encoder.finish().ok(),
        Err(_) => None,
    }
}

/// Decompresses with `flate2::read::GzDecoder`, reading the stream to its
/// end.
///
/// Trusted: the result is what the decoder read, or `None` where it reported
/// an error. Nothing is claimed about which bytes are a gzip stream.
#[verifier::external_body]
pub(crate) fn gzip_decode(compressed: &[u8]) -> (content: Option<Vec<u8>>)
    ensures
        content is None ==> gzip_decoded(compressed@) is None,
        content matches Some(bytes) ==> gzip_decoded(compressed@) == Some(bytes@),
{
    let mut decoder = GzDecoder::new(compressed);
    let mut content: Vec<u8> = Vec::new();
    match std::io::Read::read_to_end(&mut decoder, &mut content) {
        Ok(_) => Some(content),
        Err(_) => None,
    }
}

} // verus!
