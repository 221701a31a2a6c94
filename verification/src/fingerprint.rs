//! The cache key: an MD5 digest over the extension, the requested size
//! and a fixed family of sampled byte windows of the source file, hex
//! encoded and suffixed with `.png`.
//!
//! The windows start at 256 bytes and then at exponentially growing
//! offsets, 1024 bytes each, so the key never depends on reading a whole
//! file; two files agreeing on the sampled windows (and length) get the
//! same key by design.

use vstd::prelude::*;

use crate::opf::append_bytes;
use crate::scan::ascii_bytes;
use crate::views_of;

verus! {

/// The 16-byte MD5 digest of the input, as `md5::compute` yields it.
pub uninterp spec fn md5_digest(data: Seq<u8>) -> Seq<u8>;

/// Relies on `md5::compute`: the MD5 digest of the input bytes, a
/// 16-byte value and a function of the input alone.
#[verifier::external_body]
fn md5_compute(data: &Vec<u8>) -> (r: Vec<u8>)
    ensures
        r@ == md5_digest(data@),
        r@.len() == 16,
{
    md5::compute(data.as_slice()).0.to_vec()
}

/// One lower-case hex digit for a value below 16.
pub open spec fn hex_digit(v: int) -> u8 {
    if v < 10 {
        (48 + v) as u8
    } else {
        (87 + v) as u8
    }
}

/// Lower-case hex encoding, two digits per byte, as `{:x}` formats a
/// digest.
pub open spec fn hex_lower(s: Seq<u8>) -> Seq<u8>
    decreases s.len(),
{
    if s.len() == 0 {
        Seq::empty()
    } else {
        seq![hex_digit(s.first() as int / 16), hex_digit(s.first() as int % 16)] + hex_lower(
            s.drop_first(),
        )
    }
}

/// Lower-case hex encoding of a byte string.
pub fn to_hex_lower(s: &[u8]) -> (r: Vec<u8>)
    ensures
        r@ == hex_lower(s@),
{
    let mut out: Vec<u8> = Vec::new();
    let n = s.len();
    let mut i: usize = 0;
    proof {
        assert(s@.skip(0) == s@);
    }
    while i < n
        invariant
            0 <= i <= n,
            n == s@.len(),
            hex_lower(s@) =~= out@ + hex_lower(s@.skip(i as int)),
            out@.len() == 2 * i,
        decreases n - i,
    {
        let b = s[i];
        let hi = b / 16;
        let lo = b % 16;
        out.push(if hi < 10 {
            48 + hi
        } else {
            87 + hi
        });
        out.push(if lo < 10 {
            48 + lo
        } else {
            87 + lo
        });
        proof {
            assert(s@.skip(i as int).drop_first() == s@.skip(i + 1));
            assert(s@.skip(i as int).first() == s@[i as int]);
        }
        i += 1;
    }
    proof {
        assert(s@.skip(n as int).len() == 0);
        assert(out@ =~= hex_lower(s@));
    }
    out
}

/// The `j`-th sampled offset: 256 first, then 1024 shifted left by two
/// bits per further step.
pub open spec fn sample_offset(j: int) -> u64 {
    if j == 0 {
        256
    } else if j == 1 {
        1024
    } else if j == 2 {
        4096
    } else if j == 3 {
        16384
    } else if j == 4 {
        65536
    } else if j == 5 {
        262144
    } else if j == 6 {
        1048576
    } else if j == 7 {
        4194304
    } else if j == 8 {
        16777216
    } else if j == 9 {
        67108864
    } else if j == 10 {
        268435456
    } else {
        1073741824
    }
}

/// The sampled windows from step `j` on: a 1024-byte window at each
/// offset still inside the file, stopping at the first offset past the
/// end, twelve steps in all.
pub open spec fn ranges_from(flen: u64, j: int) -> Seq<(u64, u64)>
    decreases 12 - j,
{
    if j >= 12 {
        Seq::empty()
    } else {
        let off = sample_offset(j);
        if off >= flen {
            Seq::empty()
        } else {
            let end = if flen - off >= 1024 {
                (off + 1024) as u64
            } else {
                flen
            };
            seq![(off, end)] + ranges_from(flen, j + 1)
        }
    }
}

/// All sampled windows of a file of the given length.
pub open spec fn sample_ranges(flen: u64) -> Seq<(u64, u64)> {
    ranges_from(flen, 0)
}

/// Every sampled window lies inside the file.
pub proof fn lemma_ranges_inside(flen: u64, j: int)
    ensures
        forall|i: int|
            0 <= i < ranges_from(flen, j).len() ==> (#[trigger] ranges_from(flen, j)[i]).0
                <= ranges_from(flen, j)[i].1 && ranges_from(flen, j)[i].1 <= flen,
    decreases 12 - j,
{
    if j < 12 {
        lemma_ranges_inside(flen, j + 1);
        let r = ranges_from(flen, j);
        if sample_offset(j) < flen {
            let rest = ranges_from(flen, j + 1);
            assert forall|i: int| 0 <= i < r.len() implies (#[trigger] r[i]).0 <= r[i].1
                && r[i].1 <= flen by {
                if i > 0 {
                    assert(r[i] == rest[i - 1]);
                }
            }
        }
    }
}

/// The `j`-th sampled offset, executable form.
fn offset_at(j: usize) -> (r: u64)
    requires
        j < 12,
    ensures
        r == sample_offset(j as int),
{
    if j == 0 {
        256
    } else if j == 1 {
        1024
    } else if j == 2 {
        4096
    } else if j == 3 {
        16384
    } else if j == 4 {
        65536
    } else if j == 5 {
        262144
    } else if j == 6 {
        1048576
    } else if j == 7 {
        4194304
    } else if j == 8 {
        16777216
    } else if j == 9 {
        67108864
    } else if j == 10 {
        268435456
    } else {
        1073741824
    }
}

/// The sampled windows of a file of the given length: start and end
/// offsets, each window inside the file.
pub fn sample_windows(file_len: u64) -> (r: Vec<(u64, u64)>)
    ensures
        r@ == sample_ranges(file_len),
        forall|i: int|
            0 <= i < r@.len() ==> (#[trigger] r@[i]).0 <= r@[i].1 && r@[i].1 <= file_len,
{
    proof {
        lemma_ranges_inside(file_len, 0);
    }
    let mut out: Vec<(u64, u64)> = Vec::new();
    let mut j: usize = 0;
    while j < 12
        invariant
            0 <= j <= 12,
            sample_ranges(file_len) == out@ + ranges_from(file_len, j as int),
        decreases 12 - j,
    {
        let off = offset_at(j);
        if off >= file_len {
            assert(out@ =~= sample_ranges(file_len)) by {
                assert(ranges_from(file_len, j as int).len() == 0);
                assert(out@ + ranges_from(file_len, j as int) =~= out@);
            }
            proof {
                lemma_ranges_inside(file_len, 0);
            }
            return out;
        }
        let end: u64 = if file_len - off >= 1024 {
            off + 1024
        } else {
            file_len
        };
        let ghost prev = out@;
        out.push((off, end));
        proof {
            assert(prev + ranges_from(file_len, j as int) =~= (prev + seq![(off, end)])
                + ranges_from(file_len, j + 1));
        }
        j += 1;
    }
    assert(out@ =~= sample_ranges(file_len)) by {
        assert(ranges_from(file_len, 12).len() == 0);
        assert(out@ + ranges_from(file_len, 12) =~= out@);
    }
    out
}

/// The little-endian bytes of a 32-bit value.
pub open spec fn le4(x: u32) -> Seq<u8> {
    seq![
        (x % 256) as u8,
        ((x / 256) % 256) as u8,
        ((x / 65536) % 256) as u8,
        ((x / 16777216) % 256) as u8,
    ]
}

/// The contents of all windows, in order, as one byte string; peeled
/// from the back.
pub open spec fn concat_windows(ws: Seq<Seq<u8>>) -> Seq<u8>
    decreases ws.len(),
{
    if ws.len() == 0 {
        Seq::empty()
    } else {
        concat_windows(ws.drop_last()) + ws.last()
    }
}

/// What the running hash is fed: the extension, the little-endian
/// request size, then every sampled window in order.
pub open spec fn fingerprint_input(ext: Seq<u8>, size: u32, ws: Seq<Seq<u8>>) -> Seq<u8> {
    ext + le4(size) + concat_windows(ws)
}

/// The cache key: the hex digest of the fingerprint input, with the
/// `.png` suffix under which the entry is stored.
pub open spec fn cache_key_of(ext: Seq<u8>, size: u32, ws: Seq<Seq<u8>>) -> Seq<u8> {
    hex_lower(md5_digest(fingerprint_input(ext, size, ws))) + ascii_bytes(".png"@)
}

/// Compute the cache key for a request from the extension, the requested
/// size and the sampled windows read from the file.
pub fn cache_key(ext: &[u8], size: u32, windows: &Vec<Vec<u8>>) -> (r: Vec<u8>)
    ensures
        r@ == cache_key_of(ext@, size, views_of(windows@)),
{
    proof {
        reveal_strlit(".png");
    }
    let mut input: Vec<u8> = Vec::new();
    append_bytes(&mut input, ext);
    input.push((size % 256) as u8);
    input.push(((size / 256) % 256) as u8);
    input.push(((size / 65536) % 256) as u8);
    input.push(((size / 16777216) % 256) as u8);
    assert(input@ =~= ext@ + le4(size));
    let n = windows.len();
    let mut i: usize = 0;
    proof {
        assert(views_of(windows@).take(0) =~= Seq::<Seq<u8>>::empty());
        assert(input@ + concat_windows(views_of(windows@).take(0)) =~= input@);
    }
    let ghost head = input@;
    while i < n
        invariant
            0 <= i <= n,
            n == windows@.len(),
            head == ext@ + le4(size),
            input@ =~= head + concat_windows(views_of(windows@).take(i as int)),
        decreases n - i,
    {
        append_bytes(&mut input, windows[i].as_slice());
        proof {
            let vs = views_of(windows@);
            assert(vs.take(i + 1).drop_last() =~= vs.take(i as int));
            assert(vs.take(i + 1).last() == vs[i as int]);
        }
        i += 1;
    }
    proof {
        assert(views_of(windows@).take(n as int) =~= views_of(windows@));
    }
    let digest = md5_compute(&input);
    let mut key = to_hex_lower(digest.as_slice());
    append_bytes(&mut key, crate::scan::lit_bytes(".png"));
    key
}

/// The sampled windows of a file, cut from its contents.
pub open spec fn sampled_windows(file: Seq<u8>) -> Seq<Seq<u8>> {
    sample_ranges(file.len() as u64).map_values(
        |r: (u64, u64)| file.subrange(r.0 as int, r.1 as int),
    )
}

/// The fingerprint reads nothing outside the sampled windows: two files
/// of the same length that agree on every sampled window get the same
/// cache key for the same extension and size, even if they differ in
/// between or beyond the windows.  Files differing only past the last
/// sampled offset may therefore share a key; that is the accepted price
/// of never reading whole files.
pub proof fn lemma_key_ignores_unsampled(ext: Seq<u8>, size: u32, f1: Seq<u8>, f2: Seq<u8>)
    requires
        f1.len() == f2.len(),
        f1.len() <= u64::MAX,
        forall|i: int|
            0 <= i < sample_ranges(f1.len() as u64).len() ==> f1.subrange(
                (#[trigger] sample_ranges(f1.len() as u64)[i]).0 as int,
                sample_ranges(f1.len() as u64)[i].1 as int,
            ) == f2.subrange(
                sample_ranges(f1.len() as u64)[i].0 as int,
                sample_ranges(f1.len() as u64)[i].1 as int,
            ),
    ensures
        cache_key_of(ext, size, sampled_windows(f1)) == cache_key_of(ext, size, sampled_windows(f2)),
{
    assert(sampled_windows(f1) =~= sampled_windows(f2));
}

} // verus!
