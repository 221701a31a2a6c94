//! MOBI/AZW cover extraction: a Palm-database walk, fully verified.
//!
//! The database header names the record count; each record entry holds a
//! big-endian start offset.  Record 0 carries the MOBI header, whose EXTH
//! block may hold a type-201 record giving the cover's offset relative to
//! the first image record.  The chosen record is accepted only if it starts
//! with a JPEG, PNG or GIF signature.

use vstd::prelude::*;

use crate::CoverError;
use crate::dispatch;
use crate::res_bytes_is;
use crate::scan;
use crate::scan::ascii_bytes;
use crate::scan::starts_with_seq;

verus! {

/// The big-endian 16-bit value at offset `i`.
pub open spec fn be16_at(s: Seq<u8>, i: int) -> int {
    s[i] * 0x100 + s[i + 1]
}

/// The big-endian 32-bit value at offset `i`.
pub open spec fn be32_at(s: Seq<u8>, i: int) -> int {
    s[i] * 0x1000000 + s[i + 1] * 0x10000 + s[i + 2] * 0x100 + s[i + 3]
}

/// The start offset of record `i`, read from the record entry table.
pub open spec fn record_offset(data: Seq<u8>, i: int) -> int {
    be32_at(data, 78 + 8 * i)
}

/// The bytes start with a JPEG, PNG or GIF signature.
pub open spec fn has_image_signature(img: Seq<u8>) -> bool {
    starts_with_seq(img, seq![0xffu8, 0xd8u8, 0xffu8]) || starts_with_seq(
        img,
        seq![0x89u8, 0x50u8, 0x4eu8, 0x47u8],
    ) || starts_with_seq(img, ascii_bytes("GIF"@))
}

/// Walk of `k` EXTH records starting at `p`: the payload head of the last
/// type-201 record, on top of what was already found.  A record header or
/// payload that would run past the end of the data is a short read, and a
/// short read at any step is a hard format failure.
pub open spec fn exth_cover_scan(data: Seq<u8>, p: int, k: int, acc: Option<int>) -> Result<
    Option<int>,
    CoverError,
>
    decreases k,
{
    if k <= 0 {
        Ok(acc)
    } else if p + 8 > data.len() {
        Err(CoverError::ContainerError)
    } else {
        let l = be32_at(data, p + 4);
        let dl = if l >= 8 {
            l - 8
        } else {
            0
        };
        if p + 8 + dl > data.len() {
            Err(CoverError::ContainerError)
        } else {
            let acc2 = if be32_at(data, p) == 201 && dl >= 4 {
                Some(be32_at(data, p + 8))
            } else {
                acc
            };
            exth_cover_scan(data, p + 8 + dl, k - 1, acc2)
        }
    }
}

/// The cover the MOBI extractor produces from these database bytes, or the
/// error it reports.  Structural failures (truncated reads, missing
/// markers) are container errors; an intact database in which no rule
/// selects a valid image is a no-cover result.
pub open spec fn mobi_cover_of(data: Seq<u8>) -> Result<Seq<u8>, CoverError> {
    if data.len() < 78 {
        Err(CoverError::ContainerError)
    } else if data.subrange(60, 68) != ascii_bytes("BOOKMOBI"@) {
        Err(CoverError::ContainerError)
    } else {
        let nrec = be16_at(data, 76);
        if data.len() < 78 + 8 * nrec {
            Err(CoverError::ContainerError)
        } else if nrec == 0 {
            Err(CoverError::ContainerError)
        } else {
            let r0 = record_offset(data, 0);
            if r0 + 256 > data.len() {
                Err(CoverError::ContainerError)
            } else if data.subrange(r0 + 16, r0 + 20) != ascii_bytes("MOBI"@) {
                Err(CoverError::ContainerError)
            } else if (be32_at(data, r0 + 128) / 0x40) % 2 == 0 {
                Err(CoverError::NoCoverFound)
            } else {
                let exth_off = r0 + 16 + be32_at(data, r0 + 20);
                if exth_off + 12 > data.len() {
                    Err(CoverError::ContainerError)
                } else if data.subrange(exth_off, exth_off + 4) != ascii_bytes("EXTH"@) {
                    Err(CoverError::ContainerError)
                } else {
                    let count = be32_at(data, exth_off + 8);
                    let first_img = be32_at(data, r0 + 108);
                    if exth_cover_scan(data, exth_off + 12, count, None) is Err {
                        Err(CoverError::ContainerError)
                    } else {
                        let cover_idx = match exth_cover_scan(data, exth_off + 12, count, None) {
                            Ok(Some(off)) => first_img + off,
                            _ => first_img,
                        };
                        if cover_idx >= nrec {
                            Err(CoverError::NoCoverFound)
                        } else {
                            let start = record_offset(data, cover_idx);
                            let end = if cover_idx + 1 < nrec {
                                record_offset(data, cover_idx + 1)
                            } else {
                                data.len() as int
                            };
                            if end < start || end > data.len() {
                                Err(CoverError::ContainerError)
                            } else {
                                let img = data.subrange(start, end);
                                if has_image_signature(img) {
                                    Ok(img)
                                } else {
                                    Err(CoverError::NoCoverFound)
                                }
                            }
                        }
                    }
                }
            }
        }
    }
}

/// The big-endian 16-bit value at offset `i`.
fn read_be16(s: &[u8], i: usize) -> (r: u16)
    requires
        i + 2 <= s@.len(),
    ensures
        r == be16_at(s@, i as int),
{
    (s[i] as u16) * 0x100 + (s[i + 1] as u16)
}

/// The big-endian 32-bit value at offset `i`.
fn read_be32(s: &[u8], i: usize) -> (r: u32)
    requires
        i + 4 <= s@.len(),
    ensures
        r == be32_at(s@, i as int),
{
    (s[i] as u32) * 0x1000000 + (s[i + 1] as u32) * 0x10000 + (s[i + 2] as u32) * 0x100 + (s[i
        + 3] as u32)
}

/// Walk the EXTH records for the last type-201 (cover offset) entry; a
/// truncated record is a hard format failure.
fn exth_cover_offset(data: &[u8], start: usize, count: u32) -> (r: Result<Option<u32>, CoverError>)
    requires
        start <= data@.len(),
    ensures
        match r {
            Ok(Some(v)) => exth_cover_scan(data@, start as int, count as int, None) == Ok::<
                Option<int>,
                CoverError,
            >(Some(v as int)),
            Ok(None) => exth_cover_scan(data@, start as int, count as int, None) == Ok::<
                Option<int>,
                CoverError,
            >(None),
            Err(e) => exth_cover_scan(data@, start as int, count as int, None) == Err::<
                Option<int>,
                CoverError,
            >(e),
        },
{
    let len = data.len();
    let mut p: usize = start;
    let mut k: u32 = count;
    let mut acc: Option<u32> = None;
    while k > 0
        invariant
            p <= len,
            len == data@.len(),
            exth_cover_scan(data@, start as int, count as int, None) == exth_cover_scan(
                data@,
                p as int,
                k as int,
                match acc {
                    Some(v) => Some(v as int),
                    None => None,
                },
            ),
        decreases k,
    {
        if len - p < 8 {
            return Err(CoverError::ContainerError);
        }
        let t = read_be32(data, p);
        let l = read_be32(data, p + 4);
        let dl: usize = if l >= 8 {
            (l - 8) as usize
        } else {
            0
        };
        if dl > len - p - 8 {
            return Err(CoverError::ContainerError);
        }
        if t == 201 && dl >= 4 {
            acc = Some(read_be32(data, p + 8));
        }
        p = p + 8 + dl;
        k = k - 1;
    }
    Ok(acc)
}

/// Extract the cover image from the bytes of a MOBI/AZW/AZW3/KF8/PRC file.
#[verifier::rlimit(100)]
pub fn extract_mobi_cover_bytes(data: &Vec<u8>) -> (r: Result<Vec<u8>, CoverError>)
    ensures
        res_bytes_is(r, mobi_cover_of(data@)),
{
    proof {
        reveal_strlit("BOOKMOBI");
        reveal_strlit("MOBI");
        reveal_strlit("EXTH");
        reveal_strlit("GIF");
    }
    let len = data.len();
    let s = data.as_slice();
    if len < 78 {
        return Err(CoverError::ContainerError);
    }
    if !dispatch::eq_bytes(
        vstd::slice::slice_subrange(s, 60, 68),
        scan::lit_bytes("BOOKMOBI"),
    ) {
        return Err(CoverError::ContainerError);
    }
    let nrec: usize = read_be16(s, 76) as usize;
    if len < 78 + 8 * nrec {
        return Err(CoverError::ContainerError);
    }
    if nrec == 0 {
        return Err(CoverError::ContainerError);
    }
    let r0: usize = read_be32(s, 78) as usize;
    if r0 > len || len - r0 < 256 {
        return Err(CoverError::ContainerError);
    }
    if !dispatch::eq_bytes(
        vstd::slice::slice_subrange(s, r0 + 16, r0 + 20),
        scan::lit_bytes("MOBI"),
    ) {
        return Err(CoverError::ContainerError);
    }
    let exth_flags = read_be32(s, r0 + 128);
    if (exth_flags / 0x40) % 2 == 0 {
        return Err(CoverError::NoCoverFound);
    }
    let header_length = read_be32(s, r0 + 20);
    let exth_off_wide: u64 = r0 as u64 + 16 + header_length as u64;
    if exth_off_wide + 12 > len as u64 {
        return Err(CoverError::ContainerError);
    }
    let exth_off: usize = exth_off_wide as usize;
    if !dispatch::eq_bytes(
        vstd::slice::slice_subrange(s, exth_off, exth_off + 4),
        scan::lit_bytes("EXTH"),
    ) {
        return Err(CoverError::ContainerError);
    }
    let count = read_be32(s, exth_off + 8);
    let first_img = read_be32(s, r0 + 108);
    let cover_idx_wide: u64 = match exth_cover_offset(s, exth_off + 12, count) {
        Ok(Some(off)) => first_img as u64 + off as u64,
        Ok(None) => first_img as u64,
        Err(_) => {
            return Err(CoverError::ContainerError);
        },
    };
    if cover_idx_wide >= nrec as u64 {
        return Err(CoverError::NoCoverFound);
    }
    let cover_idx: usize = cover_idx_wide as usize;
    let start_wide: u64 = read_be32(s, 78 + 8 * cover_idx) as u64;
    let end_wide: u64 = if cover_idx + 1 < nrec {
        read_be32(s, 78 + 8 * (cover_idx + 1)) as u64
    } else {
        len as u64
    };
    if end_wide < start_wide || end_wide > len as u64 {
        return Err(CoverError::ContainerError);
    }
    let start: usize = start_wide as usize;
    let end: usize = end_wide as usize;
    let img = vstd::slice::slice_to_vec(vstd::slice::slice_subrange(s, start, end));
    let is_image = scan::starts_with(img.as_slice(), jpeg_sig().as_slice()) || scan::starts_with(
        img.as_slice(),
        png_sig().as_slice(),
    ) || scan::starts_with(img.as_slice(), scan::lit_bytes("GIF"));
    if is_image {
        Ok(img)
    } else {
        Err(CoverError::NoCoverFound)
    }
}

/// The three-byte JPEG signature.
fn jpeg_sig() -> (r: Vec<u8>)
    ensures
        r@ == seq![0xffu8, 0xd8u8, 0xffu8],
{
    let mut v: Vec<u8> = Vec::new();
    v.push(0xff);
    v.push(0xd8);
    v.push(0xff);
    assert(v@ =~= seq![0xffu8, 0xd8u8, 0xffu8]);
    v
}

/// The four-byte PNG signature.
fn png_sig() -> (r: Vec<u8>)
    ensures
        r@ == seq![0x89u8, 0x50u8, 0x4eu8, 0x47u8],
{
    let mut v: Vec<u8> = Vec::new();
    v.push(0x89);
    v.push(0x50);
    v.push(0x4e);
    v.push(0x47);
    assert(v@ =~= seq![0x89u8, 0x50u8, 0x4eu8, 0x47u8]);
    v
}

} // verus!
