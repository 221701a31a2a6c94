//! Cover-image extraction, compositing and fingerprint-keyed caching for
//! e-book containers.
//!
//! The library turns the raw bytes of an e-book file (EPUB, MOBI/AZW family,
//! CBZ/CBR, FB2 or plain text) into the bytes of a branded square PNG
//! thumbnail, and computes the stable cache key under which such a thumbnail
//! is stored on disk.  All parsing, selection and compositing decisions are
//! verified; calls into the zip, base64, md5 and image codecs are isolated in
//! small trusted wrappers whose results are functions of the input bytes.

use vstd::prelude::*;

pub mod cbz;
pub mod dispatch;
pub mod epub;
pub mod extract;
pub mod fb2;
pub mod fingerprint;
pub mod imgio;
pub mod mobi;
pub mod opf;
pub mod provider;
pub mod scan;
pub mod txt;
pub mod zipio;

verus! {

/// Why a thumbnail could not be produced for a request.
#[derive(Clone, Copy, Debug, PartialEq, Eq, Structural)]
pub enum CoverError {
    /// The file extension is not one of the supported formats.
    UnsupportedFormat,
    /// The container could not be opened or parsed (not a valid zip archive
    /// or Palm database).
    ContainerError,
    /// The container was read successfully but no rule produced a cover image.
    NoCoverFound,
    /// The extracted bytes are not a decodable raster image.
    DecodeError,
    /// An underlying read failed; raised by the unverified shell around the
    /// library, never by the verified extractors themselves.
    IoError,
}

/// The views of a list of byte vectors.
pub open spec fn views_of(s: Seq<Vec<u8>>) -> Seq<Seq<u8>> {
    s.map_values(|v: Vec<u8>| v@)
}

/// The executable option of a byte vector agrees with its mathematical
/// counterpart.
pub open spec fn opt_bytes_is(r: Option<Vec<u8>>, s: Option<Seq<u8>>) -> bool {
    match r {
        Some(v) => s == Some(v@),
        None => s is None,
    }
}

/// The executable result of a byte vector agrees with its mathematical
/// counterpart, error for error.
pub open spec fn res_bytes_is(r: Result<Vec<u8>, CoverError>, s: Result<Seq<u8>, CoverError>) -> bool {
    match r {
        Ok(v) => s == Ok::<Seq<u8>, CoverError>(v@),
        Err(e) => s == Err::<Seq<u8>, CoverError>(e),
    }
}

} // verus!
