//! Placeholder cover for plain-text files: a flat light square of the
//! requested size with a single-pixel darker border, PNG-encoded.  The
//! file's content plays no part; only that it could be read at all.

use vstd::prelude::*;

use crate::CoverError;
use crate::imgio;
use crate::imgio::RgbaBuf;
use crate::imgio::png_encoding;
use crate::res_bytes_is;

verus! {

/// The byte at offset `k` of the placeholder pixel buffer: alpha bytes are
/// fully opaque, border pixels are a darker grey, interior pixels a light
/// grey.
pub open spec fn placeholder_byte(size: u32, k: int) -> u8 {
    if size == 0 {
        0
    } else {
        let p = k / 4;
        let c = k % 4;
        let y = p / (size as int);
        let x = p % (size as int);
        if c == 3 {
            255
        } else if x == 0 || y == 0 || x == size - 1 || y == size - 1 {
            200
        } else {
            245
        }
    }
}

/// The whole placeholder pixel buffer for a square of the given size.
pub open spec fn placeholder_pixels(size: u32) -> Seq<u8> {
    Seq::new((4 * size * size) as nat, |k: int| placeholder_byte(size, k))
}

/// The placeholder cover for a text file: the bordered square, encoded as
/// a PNG.
pub open spec fn txt_cover_of(size: u32) -> Result<Seq<u8>, CoverError> {
    match png_encoding(size, size, placeholder_pixels(size)) {
        Some(p) => Ok(p),
        None => Err(CoverError::DecodeError),
    }
}

/// The placeholder square has, at every coordinate, a fully opaque pixel
/// whose shade depends only on whether it lies on the outermost ring:
/// the single-pixel border is darker than the interior, whatever the
/// requested size and whatever the file held.
pub proof fn lemma_placeholder_border(size: u32, x: int, y: int)
    requires
        size >= 1,
        0 <= x < size,
        0 <= y < size,
    ensures
        ({
            let k = 4 * (y * (size as int) + x);
            &&& placeholder_pixels(size)[k + 3] == 255
            &&& (x == 0 || y == 0 || x == size - 1 || y == size - 1)
                ==> placeholder_pixels(size)[k] == 200 && placeholder_pixels(size)[k + 1] == 200
                && placeholder_pixels(size)[k + 2] == 200
            &&& !(x == 0 || y == 0 || x == size - 1 || y == size - 1)
                ==> placeholder_pixels(size)[k] == 245 && placeholder_pixels(size)[k + 1] == 245
                && placeholder_pixels(size)[k + 2] == 245
        }),
{
    crate::imgio::lemma_row_major_bound(x, y, size as int, size as int);
    assert(4 * ((size as int) * (size as int)) == 4 * size * size) by (nonlinear_arith);
    crate::imgio::lemma_pixel_coords(size as int, x, y, 0);
    crate::imgio::lemma_pixel_coords(size as int, x, y, 1);
    crate::imgio::lemma_pixel_coords(size as int, x, y, 2);
    crate::imgio::lemma_pixel_coords(size as int, x, y, 3);
}

/// Build the bordered placeholder square: every pixel fully opaque, the
/// outermost pixel ring darker than the interior, whatever the file held.
pub fn build_placeholder(size: u32) -> (r: RgbaBuf)
    requires
        4 * size * size <= usize::MAX,
    ensures
        r.width == size,
        r.height == size,
        r.pixels@ == placeholder_pixels(size),
        r.wf(),
{
    let mut pixels: Vec<u8> = Vec::new();
    let mut y: u32 = 0;
    while y < size
        invariant
            4 * size * size <= usize::MAX,
            0 <= y <= size,
            pixels@.len() == 4 * ((y as int) * (size as int)),
            forall|k: int| 0 <= k < pixels@.len() ==> pixels@[k] == placeholder_byte(size, k),
        decreases size - y,
    {
        let mut x: u32 = 0;
        while x < size
            invariant
                4 * size * size <= usize::MAX,
                0 <= y < size,
                0 <= x <= size,
                pixels@.len() == 4 * ((y as int) * (size as int) + x),
                forall|k: int| 0 <= k < pixels@.len() ==> pixels@[k] == placeholder_byte(size, k),
            decreases size - x,
        {
            let ghost l0 = pixels@.len() as int;
            proof {
                imgio::lemma_row_major_bound(x as int, y as int, size as int, size as int);
                assert(4 * ((size as int) * (size as int)) == 4 * size * size) by (nonlinear_arith);
            }
            let shade: u8 = if x == 0 || y == 0 || x == size - 1 || y == size - 1 {
                200
            } else {
                245
            };
            pixels.push(shade);
            pixels.push(shade);
            pixels.push(shade);
            pixels.push(255);
            proof {
                imgio::lemma_pixel_coords(size as int, x as int, y as int, 0);
                imgio::lemma_pixel_coords(size as int, x as int, y as int, 1);
                imgio::lemma_pixel_coords(size as int, x as int, y as int, 2);
                imgio::lemma_pixel_coords(size as int, x as int, y as int, 3);
                assert(pixels@[l0] == placeholder_byte(size, l0));
                assert(pixels@[l0 + 1] == placeholder_byte(size, l0 + 1));
                assert(pixels@[l0 + 2] == placeholder_byte(size, l0 + 2));
                assert(pixels@[l0 + 3] == placeholder_byte(size, l0 + 3));
            }
            x += 1;
        }
        proof {
            assert(4 * ((y as int) * (size as int) + size as int) == 4 * ((y as int + 1) * (
            size as int))) by (nonlinear_arith);
        }
        y += 1;
    }
    proof {
        assert(pixels@ =~= placeholder_pixels(size)) by {
            assert(4 * ((size as int) * (size as int)) == 4 * size * size) by (nonlinear_arith);
        }
    }
    RgbaBuf { width: size, height: size, pixels }
}

/// Produce the placeholder cover for a text file.  The file's bytes are
/// accepted only as evidence that the file was readable; the placeholder
/// never depends on them.
pub fn extract_txt_cover_bytes(_data: &Vec<u8>, size: u32) -> (r: Result<Vec<u8>, CoverError>)
    requires
        4 * size * size <= usize::MAX,
    ensures
        res_bytes_is(r, txt_cover_of(size)),
        size >= 1 ==> r is Ok,
{
    let img = build_placeholder(size);
    imgio::encode_png(&img)
}

} // verus!
