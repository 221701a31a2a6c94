//! EPUB package-document helpers: windowed attribute scans over the raw
//! bytes of `container.xml` and the OPF manifest, and resolution of a
//! manifest `href` against the package document's directory.
//!
//! These are deliberately not a full XML parser: each function looks for a
//! literal pattern and reads an attribute value out of a bounded window
//! around it, first success winning.

use vstd::prelude::*;

use crate::opt_bytes_is;
use crate::scan;
use crate::scan::ascii_bytes;

verus! {

/// A byte that keeps an element name going; anything else ends the name.
pub open spec fn is_name_byte(b: u8) -> bool {
    (48 <= b && b <= 57) || (65 <= b && b <= 90) || (97 <= b && b <= 122) || b == 45 || b == 95
        || b == 58
}

/// `<tag` opens an element at position `i`: the pattern matches there and
/// the element name ends right after it, so `<rootfile` does not match
/// inside `<rootfiles>`.
pub open spec fn tag_opens_at(xml: Seq<u8>, tag: Seq<u8>, i: int) -> bool {
    scan::match_at(xml, ascii_bytes("<"@) + tag, i) && (i + 1 + tag.len() == xml.len()
        || !is_name_byte(xml[i + 1 + tag.len()]))
}

/// Where the first `<tag>` element opens, if one does.
pub open spec fn first_tag_open(xml: Seq<u8>, tag: Seq<u8>) -> Option<int> {
    if exists|i: int| tag_opens_at(xml, tag, i) {
        Some(choose|i: int| tag_opens_at(xml, tag, i)
            && forall|j: int| 0 <= j < i ==> !tag_opens_at(xml, tag, j))
    } else {
        None
    }
}

/// Value of `attr="..."` inside the element opening at `tp`, which is cut
/// off at its closing `>` or after 500 bytes, whichever comes first.
pub open spec fn attr_after(xml: Seq<u8>, tp: int, attr: Seq<u8>) -> Option<Seq<u8>> {
    let tag_end = match scan::first_match(xml, ascii_bytes(">"@), tp) {
        Some(e) => e,
        None => if xml.len() - tp >= 500 {
            tp + 500
        } else {
            xml.len() as int
        },
    };
    let tc = xml.subrange(tp, tag_end);
    let apat = attr + ascii_bytes("=\""@);
    match scan::first_match(tc, apat, 0) {
        None => None,
        Some(ap) => {
            let vs = ap + apat.len();
            match scan::first_match(tc, ascii_bytes("\""@), vs) {
                Some(ve) => Some(tc.subrange(vs, ve)),
                None => None,
            }
        },
    }
}

/// Value of `attr="..."` inside the first `<tag ...>` element of `xml`.
pub open spec fn attr_of(xml: Seq<u8>, tag: Seq<u8>, attr: Seq<u8>) -> Option<Seq<u8>> {
    match first_tag_open(xml, tag) {
        None => None,
        Some(tp) => attr_after(xml, tp, attr),
    }
}

/// The manifest id the `<meta name="cover" content="..."/>` declaration
/// points at: the `content` value read from a window of 50 bytes before to
/// 100 bytes after the `name="cover"` pattern.
pub open spec fn meta_cover_id_of(opf: Seq<u8>) -> Option<Seq<u8>> {
    match scan::first_match(opf, ascii_bytes("name=\"cover\""@), 0) {
        None => None,
        Some(pos) => {
            let ws = if pos >= 50 { pos - 50 } else { 0 };
            let we = if opf.len() - pos >= 100 { pos + 100 } else { opf.len() as int };
            let window = opf.subrange(ws, we);
            match scan::first_match(window, ascii_bytes("content=\""@), 0) {
                None => None,
                Some(cp) => {
                    let vs = cp + 9;
                    match scan::first_match(window, ascii_bytes("\""@), vs) {
                        Some(ve) => Some(window.subrange(vs, ve)),
                        None => None,
                    }
                },
            }
        },
    }
}

/// The id of the manifest item carrying `properties="cover-image"`: the last
/// `id="..."` value in the 200 bytes before that pattern.
pub open spec fn props_cover_id_of(opf: Seq<u8>) -> Option<Seq<u8>> {
    match scan::first_match(opf, ascii_bytes("properties=\"cover-image\""@), 0) {
        None => None,
        Some(pos) => {
            let ws = if pos >= 200 { pos - 200 } else { 0 };
            let window = opf.subrange(ws, pos);
            match scan::last_match(window, ascii_bytes("id=\""@)) {
                None => None,
                Some(ip) => {
                    let vs = ip + 4;
                    match scan::first_match(window, ascii_bytes("\""@), vs) {
                        Some(ve) => Some(window.subrange(vs, ve)),
                        None => None,
                    }
                },
            }
        },
    }
}

/// The cover item id declared by the OPF document: the `<meta name="cover">`
/// declaration wins, the `properties="cover-image"` item is the fallback.
pub open spec fn cover_id_of(opf: Seq<u8>) -> Option<Seq<u8>> {
    match meta_cover_id_of(opf) {
        Some(id) => Some(id),
        None => props_cover_id_of(opf),
    }
}

/// The `href` of the manifest item with the given id: read from a window of
/// 10 bytes before to 200 bytes after the first `id="<id>"` pattern.
pub open spec fn href_by_id_of(opf: Seq<u8>, id: Seq<u8>) -> Option<Seq<u8>> {
    let pat = ascii_bytes("id=\""@) + id + ascii_bytes("\""@);
    match scan::first_match(opf, pat, 0) {
        None => None,
        Some(pos) => {
            let ws = if pos >= 10 { pos - 10 } else { 0 };
            let we = if opf.len() - pos >= 200 { pos + 200 } else { opf.len() as int };
            let window = opf.subrange(ws, we);
            match scan::first_match(window, ascii_bytes("href=\""@), 0) {
                None => None,
                Some(hp) => {
                    let vs = hp + 6;
                    match scan::first_match(window, ascii_bytes("\""@), vs) {
                        Some(ve) => Some(window.subrange(vs, ve)),
                        None => None,
                    }
                },
            }
        },
    }
}

/// The earlier of two optional positions; a missing one loses.
pub open spec fn earlier_of(a: Option<int>, b: Option<int>) -> Option<int> {
    match (a, b) {
        (Some(x), Some(y)) => if x <= y {
            Some(x)
        } else {
            Some(y)
        },
        (Some(x), None) => Some(x),
        (None, Some(y)) => Some(y),
        (None, None) => None,
    }
}

/// Where the first raster media-type attribute stands in the manifest
/// block: the earliest occurrence of any of the four patterns, which is
/// the first manifest item in declaration order that declares a raster
/// image type.
pub open spec fn first_raster_pos(manifest: Seq<u8>) -> Option<int> {
    earlier_of(
        earlier_of(
            scan::first_match(manifest, ascii_bytes("media-type=\"image/jpeg\""@), 0),
            scan::first_match(manifest, ascii_bytes("media-type=\"image/png\""@), 0),
        ),
        earlier_of(
            scan::first_match(manifest, ascii_bytes("media-type=\"image/gif\""@), 0),
            scan::first_match(manifest, ascii_bytes("media-type=\"image/webp\""@), 0),
        ),
    )
}

/// The `href` of the item whose media-type attribute stands at `pos`:
/// the last `href="..."` in the 200 bytes before it.
pub open spec fn href_before(manifest: Seq<u8>, pos: int) -> Option<Seq<u8>> {
    let ws = if pos >= 200 {
        pos - 200
    } else {
        0
    };
    let window = manifest.subrange(ws, pos);
    match scan::last_match(window, ascii_bytes("href=\""@)) {
        None => None,
        Some(hp) => {
            let vs = hp + 6;
            match scan::first_match(window, ascii_bytes("\""@), vs) {
                Some(ve) => Some(window.subrange(vs, ve)),
                None => None,
            }
        },
    }
}

/// The `href` of the first raster-image item in the manifest block, in
/// declaration order: the item whose raster media-type attribute comes
/// first in the block, whichever of the four types it declares.
pub open spec fn first_image_href_of(opf: Seq<u8>) -> Option<Seq<u8>> {
    match scan::first_match(opf, ascii_bytes("<manifest"@), 0) {
        None => None,
        Some(ms) => {
            match scan::first_match(opf, ascii_bytes("</manifest>"@), ms) {
                None => None,
                Some(me) => {
                    let manifest = opf.subrange(ms, me);
                    match first_raster_pos(manifest) {
                        None => None,
                        Some(pos) => href_before(manifest, pos),
                    }
                },
            }
        },
    }
}

/// An href resolved against the directory of the package document: absolute
/// hrefs stand as they are; otherwise the root's directory prefix (up to its
/// last slash) is prepended.
pub open spec fn resolved_href(root: Seq<u8>, href: Seq<u8>) -> Seq<u8> {
    if href.len() > 0 && href[0] == 47 {
        href
    } else {
        match scan::last_match(root, ascii_bytes("/"@)) {
            Some(sp) => root.subrange(0, sp) + ascii_bytes("/"@) + href,
            None => href,
        }
    }
}

/// Value of `attr="..."` inside the first `<tag ...>` element.
pub fn extract_attribute(xml: &[u8], tag: &[u8], attr: &[u8]) -> (r: Option<Vec<u8>>)
    ensures
        opt_bytes_is(r, attr_of(xml@, tag@, attr@)),
{
    match find_first_tag(xml, tag) {
        Some(tp) => attribute_in_element(xml, tp, attr),
        None => None,
    }
}

/// Value of `attr="..."` inside the element opening at `tp`.
#[verifier::rlimit(100)]
#[verifier::spinoff_prover]
fn attribute_in_element(xml: &[u8], tp: usize, attr: &[u8]) -> (r: Option<Vec<u8>>)
    requires
        tp <= xml@.len(),
    ensures
        opt_bytes_is(r, attr_after(xml@, tp as int, attr@)),
{
    proof {
        reveal_strlit(">");
        reveal_strlit("=\"");
        reveal_strlit("\"");
    }
    let tag_end: usize = match scan::find_from(xml, scan::lit_bytes(">"), tp) {
        Some(e) => e,
        None => {
            if xml.len() - tp >= 500 {
                tp + 500
            } else {
                xml.len()
            }
        },
    };
    let tc = vstd::slice::slice_subrange(xml, tp, tag_end);
    let mut apat: Vec<u8> = Vec::new();
    append_bytes(&mut apat, attr);
    append_bytes(&mut apat, scan::lit_bytes("=\""));
    assert(apat@ =~= attr@ + ascii_bytes("=\""@));
    let ap = match scan::find_from(tc, apat.as_slice(), 0) {
        Some(p) => p,
        None => {
            return None;
        },
    };
    let vs = ap + apat.len();
    match scan::find_from(tc, scan::lit_bytes("\""), vs) {
        Some(ve) => Some(vstd::slice::slice_to_vec(vstd::slice::slice_subrange(tc, vs, ve))),
        None => None,
    }
}

/// Whether a byte keeps an element name going.
fn name_byte(b: u8) -> (r: bool)
    ensures
        r == is_name_byte(b),
{
    (48 <= b && b <= 57) || (65 <= b && b <= 90) || (97 <= b && b <= 122) || b == 45 || b == 95
        || b == 58
}

/// Where the first `<tag>` element opens, if one does.
fn find_first_tag(xml: &[u8], tag: &[u8]) -> (r: Option<usize>)
    ensures
        match r {
            Some(i) => tag_opens_at(xml@, tag@, i as int) && first_tag_open(xml@, tag@) == Some(
                i as int,
            ),
            None => first_tag_open(xml@, tag@) is None,
        },
{
    proof {
        reveal_strlit("<");
    }
    let mut pat: Vec<u8> = Vec::new();
    pat.push(60);
    append_bytes(&mut pat, tag);
    assert(pat@ =~= ascii_bytes("<"@) + tag@);
    let n = xml.len();
    let mut from: usize = 0;
    loop
        invariant
            from <= n,
            n == xml@.len(),
            pat@ == ascii_bytes("<"@) + tag@,
            pat@.len() == 1 + tag@.len(),
            forall|j: int| 0 <= j < from ==> !tag_opens_at(xml@, tag@, j),
        decreases n - from,
    {
        let p = match scan::find_from(xml, pat.as_slice(), from) {
            Some(p) => p,
            None => {
                assert(forall|j: int| 0 <= j ==> !tag_opens_at(xml@, tag@, j));
                return None;
            },
        };
        let after = p + pat.len();
        if after >= n || !name_byte(xml[after]) {
            proof {
                let w = p as int;
                assert(tag_opens_at(xml@, tag@, w));
                assert(forall|j: int| 0 <= j < w ==> !tag_opens_at(xml@, tag@, j));
                let c = choose|c: int| tag_opens_at(xml@, tag@, c)
                    && forall|j: int| 0 <= j < c ==> !tag_opens_at(xml@, tag@, j);
                assert(c == w) by {
                    if c < w {
                        assert(!tag_opens_at(xml@, tag@, c));
                    }
                    if w < c {
                        assert(!tag_opens_at(xml@, tag@, w));
                    }
                }
            }
            return Some(p);
        }
        assert(!tag_opens_at(xml@, tag@, p as int));
        assert(forall|j: int| 0 <= j <= p ==> !tag_opens_at(xml@, tag@, j));
        from = p + 1;
    }
}

/// The cover item id declared by the OPF document.
#[verifier::rlimit(50)]
pub fn find_cover_id_in_opf(opf: &[u8]) -> (r: Option<Vec<u8>>)
    ensures
        opt_bytes_is(r, cover_id_of(opf@)),
{
    proof {
        reveal_strlit("name=\"cover\"");
        reveal_strlit("content=\"");
        reveal_strlit("properties=\"cover-image\"");
        reveal_strlit("id=\"");
        reveal_strlit("\"");
    }
    if let Some(pos) = scan::find_from(opf, scan::lit_bytes("name=\"cover\""), 0) {
        let ws = if pos >= 50 {
            pos - 50
        } else {
            0
        };
        let we = if opf.len() - pos >= 100 {
            pos + 100
        } else {
            opf.len()
        };
        let window = vstd::slice::slice_subrange(opf, ws, we);
        if let Some(cp) = scan::find_from(window, scan::lit_bytes("content=\""), 0) {
            let vs = cp + 9;
            if let Some(ve) = scan::find_from(window, scan::lit_bytes("\""), vs) {
                return Some(
                    vstd::slice::slice_to_vec(vstd::slice::slice_subrange(window, vs, ve)),
                );
            }
        }
    }
    if let Some(pos) = scan::find_from(opf, scan::lit_bytes("properties=\"cover-image\""), 0) {
        let ws = if pos >= 200 {
            pos - 200
        } else {
            0
        };
        let window = vstd::slice::slice_subrange(opf, ws, pos);
        if let Some(ip) = scan::rfind_in(window, scan::lit_bytes("id=\"")) {
            let vs = ip + 4;
            if let Some(ve) = scan::find_from(window, scan::lit_bytes("\""), vs) {
                return Some(
                    vstd::slice::slice_to_vec(vstd::slice::slice_subrange(window, vs, ve)),
                );
            }
        }
    }
    None
}

/// The `href` of the manifest item with the given id.
pub fn find_href_by_id_in_opf(opf: &[u8], id: &[u8]) -> (r: Option<Vec<u8>>)
    ensures
        opt_bytes_is(r, href_by_id_of(opf@, id@)),
{
    proof {
        reveal_strlit("id=\"");
        reveal_strlit("href=\"");
        reveal_strlit("\"");
    }
    let mut pat: Vec<u8> = Vec::new();
    append_bytes(&mut pat, scan::lit_bytes("id=\""));
    append_bytes(&mut pat, id);
    append_bytes(&mut pat, scan::lit_bytes("\""));
    assert(pat@ =~= ascii_bytes("id=\""@) + id@ + ascii_bytes("\""@));
    let pos = match scan::find_from(opf, pat.as_slice(), 0) {
        Some(p) => p,
        None => {
            return None;
        },
    };
    let ws = if pos >= 10 {
        pos - 10
    } else {
        0
    };
    let we = if opf.len() - pos >= 200 {
        pos + 200
    } else {
        opf.len()
    };
    let window = vstd::slice::slice_subrange(opf, ws, we);
    let hp = match scan::find_from(window, scan::lit_bytes("href=\""), 0) {
        Some(p) => p,
        None => {
            return None;
        },
    };
    let vs = hp + 6;
    match scan::find_from(window, scan::lit_bytes("\""), vs) {
        Some(ve) => Some(vstd::slice::slice_to_vec(vstd::slice::slice_subrange(window, vs, ve))),
        None => None,
    }
}

/// The earlier of two optional positions, as the scan reports them.
fn earlier_position(a: Option<usize>, b: Option<usize>) -> (r: Option<usize>)
    ensures
        match r {
            Some(x) => earlier_of(pos_view(a), pos_view(b)) == Some(x as int),
            None => earlier_of(pos_view(a), pos_view(b)) is None,
        },
{
    match (a, b) {
        (Some(x), Some(y)) => if x <= y {
            Some(x)
        } else {
            Some(y)
        },
        (Some(x), None) => Some(x),
        (None, Some(y)) => Some(y),
        (None, None) => None,
    }
}

/// The view of an optional position.
pub open spec fn pos_view(o: Option<usize>) -> Option<int> {
    match o {
        Some(x) => Some(x as int),
        None => None,
    }
}

/// The `href` of the first raster-image item in the manifest block, in
/// declaration order.
#[verifier::rlimit(50)]
pub fn find_first_image_in_manifest(opf: &[u8]) -> (r: Option<Vec<u8>>)
    ensures
        opt_bytes_is(r, first_image_href_of(opf@)),
{
    proof {
        reveal_strlit("<manifest");
        reveal_strlit("</manifest>");
        reveal_strlit("media-type=\"image/jpeg\"");
        reveal_strlit("media-type=\"image/png\"");
        reveal_strlit("media-type=\"image/gif\"");
        reveal_strlit("media-type=\"image/webp\"");
    }
    let ms = match scan::find_from(opf, scan::lit_bytes("<manifest"), 0) {
        Some(p) => p,
        None => {
            return None;
        },
    };
    let me = match scan::find_from(opf, scan::lit_bytes("</manifest>"), ms) {
        Some(p) => p,
        None => {
            return None;
        },
    };
    let manifest = vstd::slice::slice_subrange(opf, ms, me);
    let jpeg = scan::find_from(manifest, scan::lit_bytes("media-type=\"image/jpeg\""), 0);
    let png = scan::find_from(manifest, scan::lit_bytes("media-type=\"image/png\""), 0);
    let gif = scan::find_from(manifest, scan::lit_bytes("media-type=\"image/gif\""), 0);
    let webp = scan::find_from(manifest, scan::lit_bytes("media-type=\"image/webp\""), 0);
    match earlier_position(earlier_position(jpeg, png), earlier_position(gif, webp)) {
        Some(pos) => href_for_item_at(manifest, pos),
        None => None,
    }
}

/// The `href` in the 200-byte window before the media-type attribute at
/// `pos`.
fn href_for_item_at(manifest: &[u8], pos: usize) -> (r: Option<Vec<u8>>)
    requires
        pos <= manifest@.len(),
    ensures
        opt_bytes_is(r, href_before(manifest@, pos as int)),
{
    proof {
        reveal_strlit("href=\"");
        reveal_strlit("\"");
    }
    let ws = if pos >= 200 {
        pos - 200
    } else {
        0
    };
    let window = vstd::slice::slice_subrange(manifest, ws, pos);
    let hp = match scan::rfind_in(window, scan::lit_bytes("href=\"")) {
        Some(p) => p,
        None => {
            return None;
        },
    };
    let vs = hp + 6;
    match scan::find_from(window, scan::lit_bytes("\""), vs) {
        Some(ve) => Some(vstd::slice::slice_to_vec(vstd::slice::slice_subrange(window, vs, ve))),
        None => None,
    }
}

/// An href resolved against the directory of the package document.
pub fn resolve_href(root: &[u8], href: &[u8]) -> (r: Vec<u8>)
    ensures
        r@ == resolved_href(root@, href@),
{
    proof {
        reveal_strlit("/");
    }
    if href.len() > 0 && href[0] == 47 {
        return vstd::slice::slice_to_vec(href);
    }
    match scan::rfind_in(root, scan::lit_bytes("/")) {
        Some(sp) => {
            let mut out = vstd::slice::slice_to_vec(vstd::slice::slice_subrange(root, 0, sp));
            out.push(47);
            append_bytes(&mut out, href);
            assert(out@ =~= root@.subrange(0, sp as int) + ascii_bytes("/"@) + href@);
            out
        },
        None => vstd::slice::slice_to_vec(href),
    }
}

/// Append a byte slice to a vector.
pub fn append_bytes(out: &mut Vec<u8>, s: &[u8])
    ensures
        final(out)@ == old(out)@ + s@,
{
    let mut i: usize = 0;
    while i < s.len()
        invariant
            0 <= i <= s@.len(),
            out@ =~= old(out)@ + s@.subrange(0, i as int),
        decreases s@.len() - i,
    {
        out.push(s[i]);
        assert(old(out)@ + s@.subrange(0, i + 1) =~= (old(out)@ + s@.subrange(0, i as int)).push(
            s@[i as int],
        ));
        i += 1;
    }
    assert(s@.subrange(0, s@.len() as int) =~= s@);
}

} // verus!
