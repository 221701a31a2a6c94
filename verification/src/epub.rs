//! EPUB cover extraction: three ordered passes over the entries of the zip
//! container, first success winning.
//!
//! 1. Name heuristic: among image entries whose lower-cased name mentions
//!    "cover" or "front", pick an exact "cover" match before a partial one,
//!    and among equals the larger declared size, earliest entry on ties.
//! 2. Manifest: follow `META-INF/container.xml` to the OPF package document
//!    and read the item its cover metadata points at, or the first raster
//!    image item the manifest declares.
//! 3. Fallback: the largest image entry in the archive.

use vstd::prelude::*;

use crate::CoverError;
use crate::dispatch;
use crate::dispatch::is_image_name;
use crate::opf;
use crate::res_bytes_is;
use crate::scan;
use crate::scan::ascii_bytes;
use crate::scan::contains_seq;
use crate::scan::ends_with_seq;
use crate::scan::lower_seq;
use crate::views_of;
use crate::zipio;
use crate::zipio::collect_entry_metas;
use crate::zipio::zip_entry_data;
use crate::zipio::zip_entry_ok;
use crate::zipio::zip_meta_ok;
use crate::zipio::zip_names;
use crate::zipio::zip_parses;
use crate::zipio::zip_sizes;

verus! {

/// Entry `i` is a pass-1 cover candidate: an image entry whose lower-cased
/// name mentions "cover" or "front".
pub open spec fn is_cover_candidate(names: Seq<Seq<u8>>, i: int) -> bool {
    let low = lower_seq(names[i]);
    is_image_name(low) && (contains_seq(low, ascii_bytes("cover"@)) || contains_seq(
        low,
        ascii_bytes("front"@),
    ))
}

/// Entry `i` is an exact cover match: its lower-cased name contains
/// "cover." or ends with "cover".
pub open spec fn is_exact_cover(names: Seq<Seq<u8>>, i: int) -> bool {
    let low = lower_seq(names[i]);
    contains_seq(low, ascii_bytes("cover."@)) || ends_with_seq(low, ascii_bytes("cover"@))
}

/// Candidate `i` outranks candidate `j`: exact match first, then larger
/// declared size.
pub open spec fn outranks(names: Seq<Seq<u8>>, sizes: Seq<u64>, i: int, j: int) -> bool {
    (is_exact_cover(names, i) && !is_exact_cover(names, j)) || (is_exact_cover(names, i)
        == is_exact_cover(names, j) && sizes[i] > sizes[j])
}

/// The pass-1 choice among the first `n` entries: the highest-ranked cover
/// candidate, earliest on ties.
pub open spec fn best_candidate(names: Seq<Seq<u8>>, sizes: Seq<u64>, n: int) -> Option<int>
    decreases n,
{
    if n <= 0 {
        None
    } else {
        let prev = best_candidate(names, sizes, n - 1);
        if !is_cover_candidate(names, n - 1) {
            prev
        } else {
            match prev {
                None => Some(n - 1),
                Some(b) => if outranks(names, sizes, n - 1, b) {
                    Some(n - 1)
                } else {
                    Some(b)
                },
            }
        }
    }
}

/// The pass-3 choice among the first `n` entries: the image entry with the
/// largest declared size, earliest on ties.
pub open spec fn largest_image(names: Seq<Seq<u8>>, sizes: Seq<u64>, n: int) -> Option<int>
    decreases n,
{
    if n <= 0 {
        None
    } else {
        let prev = largest_image(names, sizes, n - 1);
        if !is_image_name(lower_seq(names[n - 1])) {
            prev
        } else {
            match prev {
                None => Some(n - 1),
                Some(b) => if sizes[n - 1] > sizes[b] {
                    Some(n - 1)
                } else {
                    Some(b)
                },
            }
        }
    }
}

/// The first of the `n` entries named exactly `target`.
pub open spec fn first_named(names: Seq<Seq<u8>>, target: Seq<u8>, n: int) -> Option<int>
    decreases n,
{
    if n <= 0 {
        None
    } else {
        match first_named(names, target, n - 1) {
            Some(i) => Some(i),
            None => if names[n - 1] == target {
                Some(n - 1)
            } else {
                None
            },
        }
    }
}

/// The contents of the first archive entry named `target`, if that entry
/// exists and decompresses.
pub open spec fn read_named(data: Seq<u8>, target: Seq<u8>) -> Option<Seq<u8>> {
    match first_named(zip_names(data), target, zip_names(data).len() as int) {
        Some(i) => if zip_entry_ok(data, i) {
            Some(zip_entry_data(data, i))
        } else {
            None
        },
        None => None,
    }
}

/// The href of the package document's explicit cover reference, when its
/// metadata declares one and the referenced item carries an href.
pub open spec fn declared_cover_href(pkg: Seq<u8>) -> Option<Seq<u8>> {
    match opf::cover_id_of(pkg) {
        Some(id) => opf::href_by_id_of(pkg, id),
        None => None,
    }
}

/// What the package document yields: the entry its explicit cover
/// reference resolves to, or the entry of the first raster-image item the
/// manifest declares.
pub open spec fn pkg_pass(data: Seq<u8>, root: Seq<u8>, pkg: Seq<u8>) -> Option<Seq<u8>> {
    let byid = match declared_cover_href(pkg) {
        Some(h) => read_named(data, opf::resolved_href(root, h)),
        None => None,
    };
    match byid {
        Some(b) => Some(b),
        None => match opf::first_image_href_of(pkg) {
            Some(h2) => read_named(data, opf::resolved_href(root, h2)),
            None => None,
        },
    }
}

/// What the manifest pass yields: follow `container.xml` to the OPF, then
/// the explicit cover reference, then the first raster-image manifest item.
pub open spec fn manifest_pass(data: Seq<u8>) -> Option<Seq<u8>> {
    match read_named(data, ascii_bytes("META-INF/container.xml"@)) {
        None => None,
        Some(cxml) => match opf::attr_of(cxml, ascii_bytes("rootfile"@), ascii_bytes(
            "full-path"@,
        )) {
            None => None,
            Some(root) => match read_named(data, root) {
                None => None,
                Some(pkg) => pkg_pass(data, root, pkg),
            },
        },
    }
}

/// The cover the EPUB extractor produces from these archive bytes, or the
/// error it reports.
pub open spec fn epub_cover_of(data: Seq<u8>) -> Result<Seq<u8>, CoverError> {
    if !zip_parses(data) {
        Err(CoverError::ContainerError)
    } else if exists|i: int| 0 <= i < zip_names(data).len() && !zip_meta_ok(data, i) {
        Err(CoverError::ContainerError)
    } else {
        let n = zip_names(data).len() as int;
        match best_candidate(zip_names(data), zip_sizes(data), n) {
            Some(c) => if zip_entry_ok(data, c) {
                Ok(zip_entry_data(data, c))
            } else {
                Err(CoverError::ContainerError)
            },
            None => match manifest_pass(data) {
                Some(b) => Ok(b),
                None => match largest_image(zip_names(data), zip_sizes(data), n) {
                    Some(l) => if zip_entry_ok(data, l) {
                        Ok(zip_entry_data(data, l))
                    } else {
                        Err(CoverError::ContainerError)
                    },
                    None => Err(CoverError::NoCoverFound),
                },
            },
        }
    }
}

/// The pass-1 choice is itself a candidate that no other candidate among
/// the first `n` entries outranks.
pub proof fn lemma_best_candidate_top(names: Seq<Seq<u8>>, sizes: Seq<u64>, n: int)
    requires
        n <= names.len(),
        names.len() == sizes.len(),
    ensures
        match best_candidate(names, sizes, n) {
            Some(c) => 0 <= c < n && is_cover_candidate(names, c) && forall|j: int|
                0 <= j < n && is_cover_candidate(names, j) ==> !outranks(names, sizes, j, c),
            None => forall|j: int| 0 <= j < n ==> !is_cover_candidate(names, j),
        },
    decreases n,
{
    if n > 0 {
        lemma_best_candidate_top(names, sizes, n - 1);
    }
}

/// Exact "cover" names come first: whenever any pass-1 candidate is an
/// exact match, the chosen entry is an exact match too, however large the
/// partial matches are.
pub proof fn lemma_exact_cover_preferred(names: Seq<Seq<u8>>, sizes: Seq<u64>, n: int, j: int)
    requires
        names.len() == sizes.len(),
        0 <= j < n <= names.len(),
        is_cover_candidate(names, j),
        is_exact_cover(names, j),
    ensures
        best_candidate(names, sizes, n) matches Some(c) && is_exact_cover(names, c),
    decreases n,
{
    if j == n - 1 {
        lemma_best_candidate_top(names, sizes, n - 1);
    } else {
        lemma_exact_cover_preferred(names, sizes, n - 1, j);
    }
}

/// Pass 1: the highest-ranked "cover"/"front" image entry, if any.
fn pass1_select(names: &Vec<Vec<u8>>, sizes: &Vec<u64>) -> (r: Option<usize>)
    requires
        names@.len() == sizes@.len(),
    ensures
        match r {
            Some(i) => i < names@.len() && best_candidate(
                views_of(names@),
                sizes@,
                names@.len() as int,
            ) == Some(i as int),
            None => best_candidate(views_of(names@), sizes@, names@.len() as int) is None,
        },
{
    let ghost vnames = views_of(names@);
    let n = names.len();
    let mut best: Option<usize> = None;
    let mut best_exact: bool = false;
    let mut j: usize = 0;
    while j < n
        invariant
            n == names@.len() == sizes@.len(),
            0 <= j <= n,
            vnames == views_of(names@),
            vnames.len() == n,
            match best {
                Some(b) => b < j && best_candidate(vnames, sizes@, j as int) == Some(b as int)
                    && best_exact == is_exact_cover(vnames, b as int),
                None => best_candidate(vnames, sizes@, j as int) is None,
            },
        decreases n - j,
    {
        proof {
            reveal_strlit("cover");
            reveal_strlit("front");
            reveal_strlit("cover.");
        }
        let low = scan::ascii_lower(names[j].as_slice());
        assert(low@ == lower_seq(vnames[j as int]));
        if dispatch::is_image_extension(low.as_slice()) && (scan::contains(
            low.as_slice(),
            scan::lit_bytes("cover"),
        ) || scan::contains(low.as_slice(), scan::lit_bytes("front"))) {
            assert(is_cover_candidate(vnames, j as int));
            let exact = scan::contains(low.as_slice(), scan::lit_bytes("cover.")) || scan::ends_with(
                low.as_slice(),
                scan::lit_bytes("cover"),
            );
            assert(exact == is_exact_cover(vnames, j as int));
            match best {
                None => {
                    best = Some(j);
                    best_exact = exact;
                },
                Some(b) => {
                    if (exact && !best_exact) || (exact == best_exact && sizes[j] > sizes[b]) {
                        assert(outranks(vnames, sizes@, j as int, b as int));
                        best = Some(j);
                        best_exact = exact;
                    } else {
                        assert(!outranks(vnames, sizes@, j as int, b as int));
                    }
                },
            }
        } else {
            assert(!is_cover_candidate(vnames, j as int));
        }
        j += 1;
    }
    best
}

/// Pass 3: the image entry with the largest declared size, if any.
fn pass3_select(names: &Vec<Vec<u8>>, sizes: &Vec<u64>) -> (r: Option<usize>)
    requires
        names@.len() == sizes@.len(),
    ensures
        match r {
            Some(i) => i < names@.len() && largest_image(
                views_of(names@),
                sizes@,
                names@.len() as int,
            ) == Some(i as int),
            None => largest_image(views_of(names@), sizes@, names@.len() as int) is None,
        },
{
    let ghost vnames = views_of(names@);
    let n = names.len();
    let mut best: Option<usize> = None;
    let mut j: usize = 0;
    while j < n
        invariant
            n == names@.len() == sizes@.len(),
            0 <= j <= n,
            vnames == views_of(names@),
            vnames.len() == n,
            match best {
                Some(b) => b < j && largest_image(vnames, sizes@, j as int) == Some(b as int),
                None => largest_image(vnames, sizes@, j as int) is None,
            },
        decreases n - j,
    {
        let low = scan::ascii_lower(names[j].as_slice());
        assert(low@ == lower_seq(vnames[j as int]));
        if dispatch::is_image_extension(low.as_slice()) {
            match best {
                None => {
                    best = Some(j);
                },
                Some(b) => {
                    if sizes[j] > sizes[b] {
                        best = Some(j);
                    }
                },
            }
        }
        j += 1;
    }
    best
}

/// Extending the scanned prefix beyond an already-found first occurrence
/// does not change it.
proof fn lemma_first_named_stable(names: Seq<Seq<u8>>, target: Seq<u8>, j: int, m: int)
    requires
        first_named(names, target, j) is Some,
        j <= m,
    ensures
        first_named(names, target, m) == first_named(names, target, j),
    decreases m - j,
{
    if j < m {
        lemma_first_named_stable(names, target, j, m - 1);
    }
}

/// The contents of the first archive entry named `target`, if that entry
/// exists and decompresses.
fn read_named_entry(data: &Vec<u8>, names: &Vec<Vec<u8>>, target: &[u8]) -> (r: Option<Vec<u8>>)
    requires
        zip_parses(data@),
        views_of(names@) == zip_names(data@),
    ensures
        crate::opt_bytes_is(r, read_named(data@, target@)),
{
    let ghost vnames = views_of(names@);
    let n = names.len();
    let mut j: usize = 0;
    while j < n
        invariant
            zip_parses(data@),
            vnames == views_of(names@),
            vnames == zip_names(data@),
            n == names@.len(),
            0 <= j <= n,
            first_named(vnames, target@, j as int) is None,
        decreases n - j,
    {
        if dispatch::eq_bytes(names[j].as_slice(), target) {
            assert(first_named(vnames, target@, j + 1) == Some(j as int));
            proof {
                lemma_first_named_stable(vnames, target@, j + 1, n as int);
            }
            return match zipio::archive_entry_bytes(data, j) {
                Ok(b) => Some(b),
                Err(_) => None,
            };
        }
        j += 1;
    }
    None
}

/// Pass 2: follow `container.xml` to the OPF package document and read the
/// item its cover metadata points at, or the first raster-image item.
#[verifier::rlimit(100)]
#[verifier::spinoff_prover]
fn manifest_pass_select(data: &Vec<u8>, names: &Vec<Vec<u8>>) -> (r: Option<Vec<u8>>)
    requires
        zip_parses(data@),
        views_of(names@) == zip_names(data@),
    ensures
        crate::opt_bytes_is(r, manifest_pass(data@)),
{
    proof {
        reveal_strlit("META-INF/container.xml");
        reveal_strlit("rootfile");
        reveal_strlit("full-path");
    }
    let cxml = match read_named_entry(data, names, scan::lit_bytes("META-INF/container.xml")) {
        Some(x) => x,
        None => {
            return None;
        },
    };
    let root = match opf::extract_attribute(
        cxml.as_slice(),
        scan::lit_bytes("rootfile"),
        scan::lit_bytes("full-path"),
    ) {
        Some(x) => x,
        None => {
            return None;
        },
    };
    let pkg = match read_named_entry(data, names, root.as_slice()) {
        Some(x) => x,
        None => {
            return None;
        },
    };
    pkg_pass_select(data, names, root.as_slice(), pkg.as_slice())
}

/// The entry the package document's cover reference or first raster-image
/// manifest item resolves to.
#[verifier::rlimit(100)]
#[verifier::spinoff_prover]
fn pkg_pass_select(data: &Vec<u8>, names: &Vec<Vec<u8>>, root: &[u8], pkg: &[u8]) -> (r: Option<
    Vec<u8>,
>)
    requires
        zip_parses(data@),
        views_of(names@) == zip_names(data@),
    ensures
        crate::opt_bytes_is(r, pkg_pass(data@, root@, pkg@)),
{
    let mut by_id: Option<Vec<u8>> = None;
    if let Some(id) = opf::find_cover_id_in_opf(pkg) {
        if let Some(h) = opf::find_href_by_id_in_opf(pkg, id.as_slice()) {
            let path = opf::resolve_href(root, h.as_slice());
            by_id = read_named_entry(data, names, path.as_slice());
        }
    }
    match by_id {
        Some(b) => Some(b),
        None => {
            match opf::find_first_image_in_manifest(pkg) {
                Some(h2) => {
                    let path2 = opf::resolve_href(root, h2.as_slice());
                    read_named_entry(data, names, path2.as_slice())
                },
                None => None,
            }
        },
    }
}

/// Extract the cover image from the bytes of an EPUB archive.
#[verifier::rlimit(50)]
pub fn extract_epub_cover_bytes(data: &Vec<u8>) -> (r: Result<Vec<u8>, CoverError>)
    ensures
        res_bytes_is(r, epub_cover_of(data@)),
{
    let (names, sizes) = match collect_entry_metas(data) {
        Ok(m) => m,
        Err(e) => {
            return Err(e);
        },
    };

    // Pass 1: name heuristic.
    if let Some(c) = pass1_select(&names, &sizes) {
        return match zipio::archive_entry_bytes(data, c) {
            Ok(b) => Ok(b),
            Err(e) => Err(e),
        };
    }

    // Pass 2: container.xml -> OPF -> cover reference or first image item.
    if let Some(b) = manifest_pass_select(data, &names) {
        return Ok(b);
    }

    // Pass 3: largest image entry.
    match pass3_select(&names, &sizes) {
        Some(l) => match zipio::archive_entry_bytes(data, l) {
            Ok(b) => Ok(b),
            Err(e) => Err(e),
        },
        None => Err(CoverError::NoCoverFound),
    }
}

} // verus!
