//! The unified entry points: route a request by extension to the right
//! extractor, and compose the full extract-then-composite pipeline whose
//! outcome is a function of the file bytes, extension, requested size and
//! overlay alone.

use vstd::prelude::*;

use crate::CoverError;
use crate::cbz;
use crate::dispatch;
use crate::dispatch::BookFormat;
use crate::dispatch::format_of;
use crate::epub;
use crate::fb2;
use crate::imgio;
use crate::imgio::opt_view;
use crate::imgio::thumbnail_of;
use crate::mobi;
use crate::res_bytes_is;
use crate::scan;
use crate::scan::lower_seq;
use crate::txt;

verus! {

/// The cover bytes the dispatcher yields for a file with the given
/// extension, or the error it reports; an unknown extension is terminal.
pub open spec fn cover_of(data: Seq<u8>, ext: Seq<u8>) -> Result<Seq<u8>, CoverError> {
    match format_of(lower_seq(ext)) {
        BookFormat::Epub => epub::epub_cover_of(data),
        BookFormat::Mobi => mobi::mobi_cover_of(data),
        BookFormat::Cbz => cbz::cbz_cover_of(data),
        BookFormat::Fb2 => fb2::fb2_cover_of(data),
        BookFormat::Txt => txt::txt_cover_of(256),
        BookFormat::Unsupported => Err(CoverError::UnsupportedFormat),
    }
}

/// Extract raw cover bytes from a file's contents, routed by extension.
/// Text files get a fixed 256-pixel placeholder, as their cover carries no
/// image of its own.
pub fn extract_cover_bytes_by_ext(data: &Vec<u8>, ext: &[u8]) -> (r: Result<Vec<u8>, CoverError>)
    ensures
        res_bytes_is(r, cover_of(data@, ext@)),
{
    let low = scan::ascii_lower(ext);
    match dispatch::format_for_extension(low.as_slice()) {
        BookFormat::Epub => epub::extract_epub_cover_bytes(data),
        BookFormat::Mobi => mobi::extract_mobi_cover_bytes(data),
        BookFormat::Cbz => cbz::extract_cbz_cover_bytes(data),
        BookFormat::Fb2 => fb2::extract_fb2_cover_bytes(data),
        BookFormat::Txt => txt::extract_txt_cover_bytes(data, 256),
        BookFormat::Unsupported => Err(CoverError::UnsupportedFormat),
    }
}

/// The outcome of the whole pipeline: extraction routed by extension,
/// then compositing at the requested size with the given overlay.
pub open spec fn thumbnail_outcome(
    data: Seq<u8>,
    ext: Seq<u8>,
    size: u32,
    overlay: Option<Seq<u8>>,
) -> Result<Seq<u8>, CoverError> {
    match cover_of(data, ext) {
        Err(e) => Err(e),
        Ok(cover) => thumbnail_of(cover, size, overlay),
    }
}

/// Build a branded thumbnail from a file's contents: extract the cover by
/// extension, then composite it at the requested size with the overlay.
pub fn thumbnail_from_data(
    data: &Vec<u8>,
    ext: &[u8],
    size: u32,
    overlay: Option<&Vec<u8>>,
) -> (r: Result<Vec<u8>, CoverError>)
    ensures
        res_bytes_is(r, thumbnail_outcome(data@, ext@, size, opt_view(overlay))),
{
    let cover = match extract_cover_bytes_by_ext(data, ext) {
        Ok(c) => c,
        Err(e) => {
            return Err(e);
        },
    };
    imgio::create_thumbnail_with_overlay(&cover, size, overlay)
}

/// Running the pipeline twice on byte-identical inputs gives
/// byte-identical output: the outcome is a function of the file bytes,
/// extension, size and overlay alone, so a thumbnail rebuilt from the
/// same file equals the one built before, and a cached copy can stand in
/// for a rebuild.
pub proof fn lemma_thumbnail_deterministic(
    r1: Result<Vec<u8>, CoverError>,
    r2: Result<Vec<u8>, CoverError>,
    data: Seq<u8>,
    ext: Seq<u8>,
    size: u32,
    overlay: Option<Seq<u8>>,
)
    requires
        res_bytes_is(r1, thumbnail_outcome(data, ext, size, overlay)),
        res_bytes_is(r2, thumbnail_outcome(data, ext, size, overlay)),
    ensures
        r1 matches Ok(a) ==> (r2 matches Ok(b) && a@ == b@),
        r1 matches Err(e1) ==> (r2 matches Err(e2) && e1 == e2),
{
}

} // verus!
