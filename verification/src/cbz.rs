//! CBZ/CBR cover extraction: the archive is an ordered image sequence, so
//! the cover is the image entry whose name sorts first lexicographically —
//! the "page 1 first" convention for scanned comics.

use vstd::prelude::*;

use crate::CoverError;
use crate::dispatch;
use crate::dispatch::is_image_name;
use crate::res_bytes_is;
use crate::scan;
use crate::scan::lower_seq;
use crate::views_of;
use crate::zipio;
use crate::zipio::collect_entry_metas;
use crate::zipio::zip_entry_data;
use crate::zipio::zip_entry_ok;
use crate::zipio::zip_meta_ok;
use crate::zipio::zip_names;
use crate::zipio::zip_parses;

verus! {

/// The first page among the first `n` entries: the image entry whose raw
/// name is lexicographically least, earliest entry on equal names.
pub open spec fn first_page(names: Seq<Seq<u8>>, n: int) -> Option<int>
    decreases n,
{
    if n <= 0 {
        None
    } else {
        let prev = first_page(names, n - 1);
        if !is_image_name(lower_seq(names[n - 1])) {
            prev
        } else {
            match prev {
                None => Some(n - 1),
                Some(b) => if scan::lex_lt(names[n - 1], names[b]) {
                    Some(n - 1)
                } else {
                    Some(b)
                },
            }
        }
    }
}

/// The cover the CBZ extractor produces from these archive bytes, or the
/// error it reports.
pub open spec fn cbz_cover_of(data: Seq<u8>) -> Result<Seq<u8>, CoverError> {
    if !zip_parses(data) {
        Err(CoverError::ContainerError)
    } else if exists|i: int| 0 <= i < zip_names(data).len() && !zip_meta_ok(data, i) {
        Err(CoverError::ContainerError)
    } else {
        match first_page(zip_names(data), zip_names(data).len() as int) {
            Some(p) => if zip_entry_ok(data, p) {
                Ok(zip_entry_data(data, p))
            } else {
                Err(CoverError::ContainerError)
            },
            None => Err(CoverError::NoCoverFound),
        }
    }
}

/// The chosen first page is an image entry no other image entry sorts
/// before: lexicographic name order decides the cover.
pub proof fn lemma_first_page_least(names: Seq<Seq<u8>>, n: int)
    requires
        n <= names.len(),
    ensures
        match first_page(names, n) {
            Some(p) => 0 <= p < n && is_image_name(lower_seq(names[p])) && forall|j: int|
                0 <= j < n && is_image_name(lower_seq(names[j])) ==> !scan::lex_lt(
                    names[j],
                    names[p],
                ),
            None => forall|j: int| 0 <= j < n ==> !is_image_name(lower_seq(names[j])),
        },
    decreases n,
{
    if n > 0 {
        lemma_first_page_least(names, n - 1);
        let i = n - 1;
        if is_image_name(lower_seq(names[i])) {
            match first_page(names, n - 1) {
                Some(b) => {
                    if scan::lex_lt(names[i], names[b]) {
                        // Anything that sorted before the old best would sort
                        // before the new one as well.
                        assert forall|j: int|
                            0 <= j < n && is_image_name(lower_seq(names[j])) implies !scan::lex_lt(
                            names[j],
                            names[i],
                        ) by {
                            if j == i {
                                scan::lemma_lex_lt_irreflexive(names[i]);
                            } else if scan::lex_lt(names[j], names[i]) {
                                scan::lemma_lex_lt_transitive(names[j], names[i], names[b]);
                            }
                        }
                    }
                },
                None => {
                    scan::lemma_lex_lt_irreflexive(names[i]);
                },
            }
        }
    }
}

/// The image entry whose name sorts first, if any.
fn select_first_page(names: &Vec<Vec<u8>>) -> (r: Option<usize>)
    ensures
        match r {
            Some(i) => i < names@.len() && first_page(views_of(names@), names@.len() as int)
                == Some(i as int),
            None => first_page(views_of(names@), names@.len() as int) is None,
        },
{
    let ghost vnames = views_of(names@);
    let n = names.len();
    let mut best: Option<usize> = None;
    let mut j: usize = 0;
    while j < n
        invariant
            n == names@.len(),
            0 <= j <= n,
            vnames == views_of(names@),
            vnames.len() == n,
            match best {
                Some(b) => b < j && first_page(vnames, j as int) == Some(b as int),
                None => first_page(vnames, j as int) is None,
            },
        decreases n - j,
    {
        let low = scan::ascii_lower(names[j].as_slice());
        assert(low@ == lower_seq(vnames[j as int]));
        if dispatch::is_image_extension(low.as_slice()) {
            match best {
                None => {
                    best = Some(j);
                },
                Some(b) => {
                    if scan::lex_less(names[j].as_slice(), names[b].as_slice()) {
                        best = Some(j);
                    }
                },
            }
        }
        j += 1;
    }
    best
}

/// Extract the cover image from the bytes of a CBZ/CBR archive.
pub fn extract_cbz_cover_bytes(data: &Vec<u8>) -> (r: Result<Vec<u8>, CoverError>)
    ensures
        res_bytes_is(r, cbz_cover_of(data@)),
{
    let (names, _sizes) = match collect_entry_metas(data) {
        Ok(m) => m,
        Err(e) => {
            return Err(e);
        },
    };
    match select_first_page(&names) {
        Some(p) => match zipio::archive_entry_bytes(data, p) {
            Ok(b) => Ok(b),
            Err(e) => Err(e),
        },
        None => Err(CoverError::NoCoverFound),
    }
}

} // verus!
