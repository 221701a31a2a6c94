//! Trusted boundary to the `zip` crate.
//!
//! An archive is always identified by the raw bytes it was read from, so
//! every fact below is a function of those bytes alone: opening the same
//! bytes twice yields the same entry list and the same entry contents.  The
//! uninterpreted spec functions name what the zip central directory holds;
//! the wrappers assert no more of `zip` than its source shows: `new` parses
//! the central directory, `len` counts its entries, `by_index` opens one
//! entry whose `name` and `size` come from the directory and whose contents
//! `read_to_end` decompresses.

use vstd::prelude::*;

use crate::CoverError;
use crate::views_of;

verus! {

/// Whether `zip::ZipArchive::new` accepts these bytes as a zip archive.
pub uninterp spec fn zip_parses(data: Seq<u8>) -> bool;

/// The entry names of the archive, in index order.
pub uninterp spec fn zip_names(data: Seq<u8>) -> Seq<Seq<u8>>;

/// The declared (uncompressed) entry sizes, in index order.
pub uninterp spec fn zip_sizes(data: Seq<u8>) -> Seq<u64>;

/// Whether entry `i` can be opened at all (not encrypted, headers legible).
pub uninterp spec fn zip_meta_ok(data: Seq<u8>, i: int) -> bool;

/// Whether entry `i` can be opened and fully decompressed.
pub uninterp spec fn zip_entry_ok(data: Seq<u8>, i: int) -> bool;

/// The decompressed contents of entry `i`.
pub uninterp spec fn zip_entry_data(data: Seq<u8>, i: int) -> Seq<u8>;

/// Relies on `zip::ZipArchive::new` (parses the central directory of the
/// archive; deterministic in the bytes) and `ZipArchive::len` (the number of
/// entries in that directory).
#[verifier::external_body]
pub fn archive_entry_count(data: &Vec<u8>) -> (r: Result<usize, CoverError>)
    ensures
        r is Ok <==> zip_parses(data@),
        r matches Ok(n) ==> n == zip_names(data@).len() && zip_sizes(data@).len() == zip_names(
            data@,
        ).len(),
        r matches Err(e) ==> e == CoverError::ContainerError,
{
    match zip::ZipArchive::new(std::io::Cursor::new(data.clone())) {
        Ok(a) => Ok(a.len()),
        Err(_) => Err(CoverError::ContainerError),
    }
}

/// Relies on `zip::ZipArchive::by_index` together with `ZipFile::name` and
/// `ZipFile::size`: the decoded entry name and the uncompressed size stored
/// in the central directory for entry `i`.
#[verifier::external_body]
pub fn archive_entry_meta(data: &Vec<u8>, i: usize) -> (r: Result<(Vec<u8>, u64), CoverError>)
    requires
        zip_parses(data@),
        i < zip_names(data@).len(),
    ensures
        r is Ok <==> zip_meta_ok(data@, i as int),
        r matches Ok(m) ==> m.0@ == zip_names(data@)[i as int] && m.1 == zip_sizes(data@)[
            i as int
        ],
        r matches Err(e) ==> e == CoverError::ContainerError,
{
    let cur = std::io::Cursor::new(data.clone());
    let mut a = zip::ZipArchive::new(cur).map_err(|_| CoverError::ContainerError)?;
    let f = a.by_index(i).map_err(|_| CoverError::ContainerError)?;
    Ok((f.name().as_bytes().to_vec(), f.size()))
}

/// Relies on `zip::ZipArchive::by_index` and `std::io::Read::read_to_end` on
/// the returned entry: the fully decompressed contents of entry `i`.
#[verifier::external_body]
pub fn archive_entry_bytes(data: &Vec<u8>, i: usize) -> (r: Result<Vec<u8>, CoverError>)
    requires
        zip_parses(data@),
        i < zip_names(data@).len(),
    ensures
        r is Ok <==> zip_entry_ok(data@, i as int),
        r matches Ok(b) ==> b@ == zip_entry_data(data@, i as int),
        r matches Err(e) ==> e == CoverError::ContainerError,
{
    let cur = std::io::Cursor::new(data.clone());
    let mut a = zip::ZipArchive::new(cur).map_err(|_| CoverError::ContainerError)?;
    let mut f = a.by_index(i).map_err(|_| CoverError::ContainerError)?;
    let mut buf = Vec::new();
    std::io::Read::read_to_end(&mut f, &mut buf).map_err(|_| CoverError::ContainerError)?;
    Ok(buf)
}

/// Read every entry's name and declared size out of the central directory.
pub fn collect_entry_metas(data: &Vec<u8>) -> (r: Result<(Vec<Vec<u8>>, Vec<u64>), CoverError>)
    ensures
        r matches Ok(m) ==> {
            &&& zip_parses(data@)
            &&& views_of(m.0@) == zip_names(data@)
            &&& m.1@ == zip_sizes(data@)
            &&& zip_sizes(data@).len() == zip_names(data@).len()
            &&& forall|k: int| 0 <= k < zip_names(data@).len() ==> zip_meta_ok(data@, k)
        },
        r matches Err(e) ==> e == CoverError::ContainerError && (!zip_parses(data@) || exists|
            i: int,
        |
            0 <= i < zip_names(data@).len() && !zip_meta_ok(data@, i)),
{
    let n = match archive_entry_count(data) {
        Ok(n) => n,
        Err(e) => {
            return Err(e);
        },
    };
    let mut names: Vec<Vec<u8>> = Vec::new();
    let mut sizes: Vec<u64> = Vec::new();
    let mut i: usize = 0;
    while i < n
        invariant
            zip_parses(data@),
            0 <= i <= n,
            n == zip_names(data@).len(),
            zip_sizes(data@).len() == zip_names(data@).len(),
            names@.len() == i,
            sizes@.len() == i,
            forall|k: int| 0 <= k < i ==> (#[trigger] names@[k])@ == zip_names(data@)[k],
            forall|k: int| 0 <= k < i ==> #[trigger] zip_meta_ok(data@, k),
            forall|k: int| 0 <= k < i ==> #[trigger] sizes@[k] == zip_sizes(data@)[k],
        decreases n - i,
    {
        match archive_entry_meta(data, i) {
            Ok(m) => {
                names.push(m.0);
                sizes.push(m.1);
            },
            Err(e) => {
                assert(!zip_meta_ok(data@, i as int));
                return Err(e);
            },
        }
        i += 1;
    }
    assert(views_of(names@) =~= zip_names(data@));
    assert(sizes@ =~= zip_sizes(data@));
    Ok((names, sizes))
}


} // verus!
