//! Bringing the origin's body into the form in which it is stored and
//! served: inflated where the origin sent it as gzip, untouched otherwise.
use crate::error::DecompressionError;
use crate::text::same_symbols;
use std::io::Read;
use vstd::prelude::*;
use vstd::string::StringSliceAdditionalSpecFns;

verus! {

/// What reading `data` through `flate2::read::GzDecoder` to the end yields:
/// the inflated bytes of its first gzip member, or nothing where the
/// decoder reports an error.
pub uninterp spec fn gzip_decoded(data: Seq<u8>) -> Option<Seq<u8>>;

/// Inflates `data` with `flate2::read::GzDecoder::new` and
/// `std::io::Read::read_to_end`. The decoder works on the given bytes alone,
/// so what it yields is named by `gzip_decoded`; an error of the decoder
/// (a bad header, a corrupt or truncated stream, a wrong checksum) comes
/// back as `None`.
#[verifier::external_body]
fn gunzip(data: &[u8]) -> (out: Option<Vec<u8>>)
    ensures
        out matches Some(bytes) ==> gzip_decoded(data@) == Some(bytes@),
        out is None ==> gzip_decoded(data@) is None,
{
    let mut decoder = flate2::read::GzDecoder::new(data);
    let mut inflated = Vec::new();
    match decoder.read_to_end(&mut inflated) {
        Ok(_) => Some(inflated),
        Err(_) => None,
    }
}

/// The bytes that an optional byte vector holds.
pub open spec fn optional_bytes(value: Option<Vec<u8>>) -> Option<Seq<u8>> {
    match value {
        Some(bytes) => Some(bytes@),
        None => None,
    }
}

/// Whether a `Content-Encoding` value announces gzip. Only the exact value
/// `gzip` does; an absent header, `deflate` and anything else do not.
pub open spec fn announces_gzip(encoding: Option<Seq<u8>>) -> bool {
    encoding == Some("gzip".spec_bytes())
}

/// What becomes of `body` under `encoding`, where `inflated` is what
/// inflating the body gives: a gzip body is replaced by its inflated bytes
/// or refused, any other body stays as it is.
pub open spec fn normalize_spec(
    body: Seq<u8>,
    encoding: Option<Seq<u8>>,
    inflated: Option<Seq<u8>>,
) -> Result<Seq<u8>, DecompressionError> {
    if announces_gzip(encoding) {
        match inflated {
            Some(bytes) => Ok(bytes),
            None => Err(DecompressionError),
        }
    } else {
        Ok(body)
    }
}

/// Whether a `Content-Encoding` value announces gzip.
pub fn is_gzip(encoding: &Option<Vec<u8>>) -> (r: bool)
    ensures
        r == announces_gzip(optional_bytes(*encoding)),
{
    match encoding {
        Some(value) => same_symbols(value.as_slice(), "gzip".as_bytes()),
        None => false,
    }
}

/// What becomes of `body` under `encoding` once the attempt to inflate it
/// has returned `inflated`.
pub fn normalize_inflated(
    body: Vec<u8>,
    encoding: &Option<Vec<u8>>,
    inflated: Option<Vec<u8>>,
) -> (r: Result<Vec<u8>, DecompressionError>)
    ensures
        match normalize_spec(body@, optional_bytes(*encoding), optional_bytes(inflated)) {
            Ok(bytes) => r matches Ok(got) && got@ == bytes,
            Err(e) => r == Err::<Vec<u8>, DecompressionError>(e),
        },
{
    if is_gzip(encoding) {
        match inflated {
            Some(bytes) => Ok(bytes),
            None => Err(DecompressionError),
        }
    } else {
        Ok(body)
    }
}

/// The body as it is stored and served: inflated where `encoding` announces
/// gzip, unchanged otherwise. A gzip body that does not inflate is an
/// error, and nothing of it is handed on.
pub fn normalize(body: Vec<u8>, encoding: &Option<Vec<u8>>) -> (r: Result<
    Vec<u8>,
    DecompressionError,
>)
    ensures
        match normalize_spec(body@, optional_bytes(*encoding), gzip_decoded(body@)) {
            Ok(bytes) => r matches Ok(got) && got@ == bytes,
            Err(e) => r == Err::<Vec<u8>, DecompressionError>(e),
        },
{
    if is_gzip(encoding) {
        let inflated = gunzip(body.as_slice());
        normalize_inflated(body, encoding, inflated)
    } else {
        Ok(body)
    }
}

} // verus!
