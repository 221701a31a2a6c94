//! FB2 cover extraction: locate the `<coverpage>` image reference in the
//! raw XML text, find the `<binary>` element it points at (or fall back to
//! the first one), and base64-decode its payload.
//!
//! The document is scanned as bytes, not parsed as a DOM; the reference id
//! is read from a bounded window after `<coverpage>`.

use vstd::prelude::*;

use crate::CoverError;
use crate::opt_bytes_is;
use crate::res_bytes_is;
use crate::scan;
use crate::scan::ascii_bytes;

verus! {

/// What RFC 4648 standard-alphabet base64 decoding (with padding, as the
/// `base64` crate's `STANDARD` engine implements it) makes of these bytes;
/// `None` when they are not a valid encoding.
pub uninterp spec fn base64_standard_decoding(s: Seq<u8>) -> Option<Seq<u8>>;

/// Relies on `base64::engine::general_purpose::STANDARD` and
/// `base64::Engine::decode`: standard-alphabet, padded base64 decoding, a
/// function of the input bytes alone.
#[verifier::external_body]
fn base64_decode(s: &Vec<u8>) -> (r: Option<Vec<u8>>)
    ensures
        r is Some <==> base64_standard_decoding(s@) is Some,
        r matches Some(v) ==> base64_standard_decoding(s@) == Some(v@),
{
    base64::Engine::decode(&base64::engine::general_purpose::STANDARD, s.as_slice()).ok()
}

/// The id part of an `href="#id"` reference starting at `st`, read up to
/// the closing quote or for at most 50 bytes.
pub open spec fn id_from(cp: Seq<u8>, st: int) -> Seq<u8> {
    let en = match scan::first_match(cp, ascii_bytes("\""@), st) {
        Some(e) => e,
        None => if cp.len() - st >= 50 {
            st + 50
        } else {
            cp.len() as int
        },
    };
    cp.subrange(st, en)
}

/// The cover image id referenced inside the `<coverpage>` element, if the
/// document declares one: an `href="#..."` or `l:href="#..."` value within
/// the element, which is cut off at `</coverpage>` or after 500 bytes.
pub open spec fn coverpage_id_of(data: Seq<u8>) -> Option<Seq<u8>> {
    match scan::first_match(data, ascii_bytes("<coverpage>"@), 0) {
        None => None,
        Some(cs) => {
            let rel = match scan::first_match(data, ascii_bytes("</coverpage>"@), cs) {
                Some(e) => e - cs,
                None => 500,
            };
            let ce = if data.len() - cs >= rel {
                cs + rel
            } else {
                data.len() as int
            };
            let cp = data.subrange(cs, ce);
            match scan::first_match(cp, ascii_bytes("href=\"#"@), 0) {
                Some(hp) => Some(id_from(cp, hp + 7)),
                None => match scan::first_match(cp, ascii_bytes("l:href=\"#"@), 0) {
                    Some(hp2) => Some(id_from(cp, hp2 + 9)),
                    None => None,
                },
            }
        },
    }
}

/// The whitespace-stripped text between the closing `>` of the first tag
/// matching `pat` and the following `</binary>`.
pub open spec fn binary_payload(data: Seq<u8>, pat: Seq<u8>) -> Option<Seq<u8>> {
    match scan::first_match(data, pat, 0) {
        None => None,
        Some(pos) => match scan::first_match(data, ascii_bytes(">"@), pos) {
            None => None,
            Some(te) => {
                let ds = te + 1;
                match scan::first_match(data, ascii_bytes("</binary>"@), ds) {
                    None => None,
                    Some(de) => Some(scan::strip_spaces(data.subrange(ds, de))),
                }
            },
        },
    }
}

/// A decoded payload, or the no-cover error a failed decode reports.
pub open spec fn decoded_or_no_cover(p: Seq<u8>) -> Result<Seq<u8>, CoverError> {
    match base64_standard_decoding(p) {
        Some(b) => Ok(b),
        None => Err(CoverError::NoCoverFound),
    }
}

/// The cover the FB2 extractor produces from these document bytes, or the
/// error it reports: a missing coverpage, missing binary or failed decode
/// is a no-cover result.
pub open spec fn fb2_cover_of(data: Seq<u8>) -> Result<Seq<u8>, CoverError> {
    let cid = coverpage_id_of(data);
    let pat = match cid {
        Some(id) => ascii_bytes("<binary id=\""@) + id + ascii_bytes("\""@),
        None => ascii_bytes("<binary"@),
    };
    match binary_payload(data, pat) {
        Some(p) => decoded_or_no_cover(p),
        None => match cid {
            Some(id) => match binary_payload(data, ascii_bytes("<binary"@)) {
                Some(p2) => decoded_or_no_cover(p2),
                None => Err(CoverError::NoCoverFound),
            },
            None => Err(CoverError::NoCoverFound),
        },
    }
}

/// The cover image id referenced inside the `<coverpage>` element.
fn find_coverpage_id(data: &[u8]) -> (r: Option<Vec<u8>>)
    ensures
        opt_bytes_is(r, coverpage_id_of(data@)),
{
    proof {
        reveal_strlit("<coverpage>");
        reveal_strlit("</coverpage>");
        reveal_strlit("href=\"#");
        reveal_strlit("l:href=\"#");
        reveal_strlit("\"");
    }
    let cs = match scan::find_from(data, scan::lit_bytes("<coverpage>"), 0) {
        Some(p) => p,
        None => {
            return None;
        },
    };
    let rel: usize = match scan::find_from(data, scan::lit_bytes("</coverpage>"), cs) {
        Some(e) => e - cs,
        None => 500,
    };
    let ce = if data.len() - cs >= rel {
        cs + rel
    } else {
        data.len()
    };
    let cp = vstd::slice::slice_subrange(data, cs, ce);
    if let Some(hp) = scan::find_from(cp, scan::lit_bytes("href=\"#"), 0) {
        return Some(read_id_from(cp, hp + 7));
    }
    match scan::find_from(cp, scan::lit_bytes("l:href=\"#"), 0) {
        Some(hp2) => Some(read_id_from(cp, hp2 + 9)),
        None => None,
    }
}

/// The id value starting at `st`, up to the closing quote or 50 bytes.
fn read_id_from(cp: &[u8], st: usize) -> (r: Vec<u8>)
    requires
        st <= cp@.len(),
    ensures
        r@ == id_from(cp@, st as int),
{
    proof {
        reveal_strlit("\"");
    }
    let en: usize = match scan::find_from(cp, scan::lit_bytes("\""), st) {
        Some(e) => e,
        None => {
            if cp.len() - st >= 50 {
                st + 50
            } else {
                cp.len()
            }
        },
    };
    vstd::slice::slice_to_vec(vstd::slice::slice_subrange(cp, st, en))
}

/// The whitespace-stripped payload of the first tag matching `pat`.
fn find_binary_payload(data: &[u8], pat: &[u8]) -> (r: Option<Vec<u8>>)
    ensures
        opt_bytes_is(r, binary_payload(data@, pat@)),
{
    proof {
        reveal_strlit(">");
        reveal_strlit("</binary>");
    }
    let pos = match scan::find_from(data, pat, 0) {
        Some(p) => p,
        None => {
            return None;
        },
    };
    let te = match scan::find_from(data, scan::lit_bytes(">"), pos) {
        Some(e) => e,
        None => {
            return None;
        },
    };
    let n = data.len();
    assert(te < n);
    let ds = te + 1;
    match scan::find_from(data, scan::lit_bytes("</binary>"), ds) {
        Some(de) => Some(scan::remove_spaces(vstd::slice::slice_subrange(data, ds, de))),
        None => None,
    }
}

/// Decode a binary payload, a failed decode reporting no cover.
fn decode_cover_payload(payload: &Vec<u8>) -> (r: Result<Vec<u8>, CoverError>)
    ensures
        res_bytes_is(r, decoded_or_no_cover(payload@)),
{
    match base64_decode(payload) {
        Some(b) => Ok(b),
        None => Err(CoverError::NoCoverFound),
    }
}

/// The search pattern naming one binary id: `<binary id="<id>"`.
fn binary_id_pattern(id: &Vec<u8>) -> (r: Vec<u8>)
    ensures
        r@ == ascii_bytes("<binary id=\""@) + id@ + ascii_bytes("\""@),
{
    proof {
        reveal_strlit("<binary id=\"");
        reveal_strlit("\"");
    }
    let mut pat: Vec<u8> = Vec::new();
    crate::opf::append_bytes(&mut pat, scan::lit_bytes("<binary id=\""));
    crate::opf::append_bytes(&mut pat, id.as_slice());
    crate::opf::append_bytes(&mut pat, scan::lit_bytes("\""));
    assert(pat@ =~= ascii_bytes("<binary id=\""@) + id@ + ascii_bytes("\""@));
    pat
}

/// Extract the cover image from the bytes of an FB2 document.
#[verifier::rlimit(100)]
#[verifier::spinoff_prover]
pub fn extract_fb2_cover_bytes(data: &Vec<u8>) -> (r: Result<Vec<u8>, CoverError>)
    ensures
        res_bytes_is(r, fb2_cover_of(data@)),
{
    proof {
        reveal_strlit("<binary");
    }
    match find_coverpage_id(data.as_slice()) {
        Some(id) => {
            let pat = binary_id_pattern(&id);
            if let Some(payload) = find_binary_payload(data.as_slice(), pat.as_slice()) {
                return decode_cover_payload(&payload);
            }
            if let Some(payload2) = find_binary_payload(data.as_slice(), scan::lit_bytes("<binary"))
                {
                return decode_cover_payload(&payload2);
            }
            Err(CoverError::NoCoverFound)
        },
        None => {
            if let Some(payload) = find_binary_payload(data.as_slice(), scan::lit_bytes("<binary"))
                {
                return decode_cover_payload(&payload);
            }
            Err(CoverError::NoCoverFound)
        },
    }
}

} // verus!
