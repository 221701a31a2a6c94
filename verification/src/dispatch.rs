//! Format dispatch: maps a file extension to the extractor that handles it,
//! and recognises image entry names inside containers.

use vstd::prelude::*;

use crate::scan;
use crate::scan::ascii_bytes;

verus! {

/// The container family an extension is routed to.
#[derive(Clone, Copy, Debug, PartialEq, Eq, Structural)]
pub enum BookFormat {
    /// Zip container with an OPF manifest.
    Epub,
    /// Palm-database binary: `mobi`, `azw`, `azw3`, `kf8`, `prc`.
    Mobi,
    /// Zip container of sequentially named page images: `cbz`, `cbr`.
    Cbz,
    /// FictionBook XML with inline base64 binaries.
    Fb2,
    /// Plain text; a placeholder cover is synthesised.
    Txt,
    /// Terminal error: no extractor runs.
    Unsupported,
}

/// Which format a lower-cased, dot-free extension selects.
pub open spec fn format_of(ext: Seq<u8>) -> BookFormat {
    if ext == ascii_bytes("epub"@) {
        BookFormat::Epub
    } else if ext == ascii_bytes("mobi"@) || ext == ascii_bytes("azw"@) || ext == ascii_bytes(
        "azw3"@,
    ) || ext == ascii_bytes("kf8"@) || ext == ascii_bytes("prc"@) {
        BookFormat::Mobi
    } else if ext == ascii_bytes("cbz"@) || ext == ascii_bytes("cbr"@) {
        BookFormat::Cbz
    } else if ext == ascii_bytes("fb2"@) {
        BookFormat::Fb2
    } else if ext == ascii_bytes("txt"@) {
        BookFormat::Txt
    } else {
        BookFormat::Unsupported
    }
}

/// A lower-cased entry name designates a raster image the extractors accept.
pub open spec fn is_image_name(name: Seq<u8>) -> bool {
    scan::ends_with_seq(name, ascii_bytes(".jpg"@)) || scan::ends_with_seq(
        name,
        ascii_bytes(".jpeg"@),
    ) || scan::ends_with_seq(name, ascii_bytes(".png"@)) || scan::ends_with_seq(
        name,
        ascii_bytes(".gif"@),
    ) || scan::ends_with_seq(name, ascii_bytes(".webp"@)) || scan::ends_with_seq(
        name,
        ascii_bytes(".bmp"@),
    )
}

/// Route a lower-cased extension (no leading dot) to its format.
pub fn format_for_extension(ext: &[u8]) -> (r: BookFormat)
    ensures
        r == format_of(ext@),
{
    proof {
        reveal_strlit("epub");
        reveal_strlit("mobi");
        reveal_strlit("azw");
        reveal_strlit("azw3");
        reveal_strlit("kf8");
        reveal_strlit("prc");
        reveal_strlit("cbz");
        reveal_strlit("cbr");
        reveal_strlit("fb2");
        reveal_strlit("txt");
    }
    if eq_bytes(ext, scan::lit_bytes("epub")) {
        BookFormat::Epub
    } else if eq_bytes(ext, scan::lit_bytes("mobi")) || eq_bytes(ext, scan::lit_bytes("azw"))
        || eq_bytes(ext, scan::lit_bytes("azw3")) || eq_bytes(ext, scan::lit_bytes("kf8"))
        || eq_bytes(ext, scan::lit_bytes("prc")) {
        BookFormat::Mobi
    } else if eq_bytes(ext, scan::lit_bytes("cbz")) || eq_bytes(ext, scan::lit_bytes("cbr")) {
        BookFormat::Cbz
    } else if eq_bytes(ext, scan::lit_bytes("fb2")) {
        BookFormat::Fb2
    } else if eq_bytes(ext, scan::lit_bytes("txt")) {
        BookFormat::Txt
    } else {
        BookFormat::Unsupported
    }
}

/// Byte-string equality.
pub fn eq_bytes(a: &[u8], b: &[u8]) -> (r: bool)
    ensures
        r == (a@ == b@),
{
    if a.len() != b.len() {
        return false;
    }
    let n = a.len();
    let mut i: usize = 0;
    while i < n
        invariant
            0 <= i <= n,
            n == a@.len() == b@.len(),
            forall|m: int| 0 <= m < i ==> a@[m] == b@[m],
        decreases n - i,
    {
        if a[i] != b[i] {
            return false;
        }
        i += 1;
    }
    assert(a@ =~= b@);
    true
}

/// Whether a lower-cased entry name has one of the accepted raster image
/// extensions.
pub fn is_image_extension(name: &[u8]) -> (r: bool)
    ensures
        r == is_image_name(name@),
{
    proof {
        reveal_strlit(".jpg");
        reveal_strlit(".jpeg");
        reveal_strlit(".png");
        reveal_strlit(".gif");
        reveal_strlit(".webp");
        reveal_strlit(".bmp");
    }
    scan::ends_with(name, scan::lit_bytes(".jpg")) || scan::ends_with(
        name,
        scan::lit_bytes(".jpeg"),
    ) || scan::ends_with(name, scan::lit_bytes(".png")) || scan::ends_with(
        name,
        scan::lit_bytes(".gif"),
    ) || scan::ends_with(name, scan::lit_bytes(".webp")) || scan::ends_with(
        name,
        scan::lit_bytes(".bmp"),
    )
}

} // verus!
