//! Raster images as plain RGBA byte buffers, the trusted boundary to the
//! `image` codec crate, and the verified compositor.
//!
//! Decoding, resizing and PNG encoding are outside calls whose results are
//! named functions of their inputs; the per-pixel alpha blend that stamps
//! the overlay onto the thumbnail is verified byte for byte.

use vstd::arithmetic::div_mod::lemma_fundamental_div_mod_converse;
use vstd::prelude::*;

use crate::CoverError;

verus! {

/// An RGBA image held as plain values: dimensions and a row-major byte
/// buffer, four bytes per pixel.
pub struct RgbaBuf {
    /// Width in pixels.
    pub width: u32,
    /// Height in pixels.
    pub height: u32,
    /// Row-major RGBA bytes, exactly `4 * width * height` of them.
    pub pixels: Vec<u8>,
}

impl RgbaBuf {
    /// The buffer holds exactly four bytes for every pixel.
    pub open spec fn wf(self) -> bool {
        self.pixels@.len() == 4 * self.width * self.height
    }
}

/// What `image::load_from_memory` followed by `to_rgba8` makes of these
/// bytes: dimensions and RGBA pixels, or `None` when they do not decode.
pub uninterp spec fn decoded_rgba(bytes: Seq<u8>) -> Option<(u32, u32, Seq<u8>)>;

/// What `DynamicImage::thumbnail` (fit within a `s`-pixel square, aspect
/// ratio preserved) makes of an RGBA image.
pub uninterp spec fn thumb_rgba(w: u32, h: u32, px: Seq<u8>, s: u32) -> (u32, u32, Seq<u8>);

/// What `DynamicImage::resize` with the Lanczos3 filter (fit within
/// `tw` x `th`, aspect ratio preserved) makes of an RGBA image.
pub uninterp spec fn lanczos_rgba(w: u32, h: u32, px: Seq<u8>, tw: u32, th: u32) -> (
    u32,
    u32,
    Seq<u8>,
);

/// What PNG-encoding an RGBA image yields, or `None` when the encoder
/// rejects it.
pub uninterp spec fn png_encoding(w: u32, h: u32, px: Seq<u8>) -> Option<Seq<u8>>;

/// Relies on `image::load_from_memory` (decodes any supported raster
/// format, deterministic in the bytes) and `DynamicImage::to_rgba8`
/// (dimensions times four bytes of RGBA data).
#[verifier::external_body]
pub fn decode_rgba(bytes: &Vec<u8>) -> (r: Result<RgbaBuf, CoverError>)
    ensures
        r is Ok <==> decoded_rgba(bytes@) is Some,
        r matches Ok(b) ==> decoded_rgba(bytes@) == Some((b.width, b.height, b.pixels@))
            && b.wf(),
        r matches Err(e) ==> e == CoverError::DecodeError,
{
    match image::load_from_memory(bytes.as_slice()) {
        Ok(img) => {
            let rgba = img.to_rgba8();
            let (w, h) = (rgba.width(), rgba.height());
            Ok(RgbaBuf { width: w, height: h, pixels: rgba.into_raw() })
        },
        Err(_) => Err(CoverError::DecodeError),
    }
}

/// Relies on `DynamicImage::thumbnail`: scales the image down to fit
/// within a `size` square, preserving aspect ratio; `to_rgba8` returns the
/// matching buffer.  For a nonempty image and a positive bound, the
/// computed dimensions are clamped to the bound and floored at one pixel.
#[verifier::external_body]
pub fn thumbnail_rgba(img: &RgbaBuf, size: u32) -> (r: RgbaBuf)
    requires
        img.wf(),
    ensures
        thumb_rgba(img.width, img.height, img.pixels@, size) == (r.width, r.height, r.pixels@),
        r.wf(),
        size >= 1 && img.width >= 1 && img.height >= 1 ==> 1 <= r.width && r.width <= size && 1
            <= r.height && r.height <= size,
{
    let buf = image::RgbaImage::from_raw(img.width, img.height, img.pixels.clone()).unwrap();
    let t = image::DynamicImage::ImageRgba8(buf).thumbnail(size, size);
    let rgba = t.to_rgba8();
    let (w, h) = (rgba.width(), rgba.height());
    RgbaBuf { width: w, height: h, pixels: rgba.into_raw() }
}

/// Relies on `DynamicImage::resize` with `FilterType::Lanczos3`: scales
/// the image to fit within `tw` x `th`, preserving aspect ratio; for a
/// nonempty image and positive bounds, the computed dimensions are
/// clamped to the bounds and floored at one pixel.
#[verifier::external_body]
pub fn resize_lanczos(img: &RgbaBuf, tw: u32, th: u32) -> (r: RgbaBuf)
    requires
        img.wf(),
    ensures
        lanczos_rgba(img.width, img.height, img.pixels@, tw, th) == (r.width, r.height, r.pixels@),
        r.wf(),
        tw >= 1 && th >= 1 && img.width >= 1 && img.height >= 1 ==> 1 <= r.width && r.width <= tw
            && 1 <= r.height && r.height <= th,
{
    let buf = image::RgbaImage::from_raw(img.width, img.height, img.pixels.clone()).unwrap();
    let t = image::DynamicImage::ImageRgba8(buf).resize(tw, th, image::imageops::FilterType::Lanczos3);
    let rgba = t.to_rgba8();
    let (w, h) = (rgba.width(), rgba.height());
    RgbaBuf { width: w, height: h, pixels: rgba.into_raw() }
}

/// Relies on `ImageBuffer::write_to` with `ImageFormat::Png`: encodes the
/// RGBA buffer as a PNG, deterministic in the pixel data.  The encoder
/// rejects only a zero width or height, so encoding a nonempty RGBA
/// buffer succeeds.
#[verifier::external_body]
pub fn encode_png(img: &RgbaBuf) -> (r: Result<Vec<u8>, CoverError>)
    requires
        img.wf(),
    ensures
        r is Ok <==> png_encoding(img.width, img.height, img.pixels@) is Some,
        r matches Ok(v) ==> png_encoding(img.width, img.height, img.pixels@) == Some(v@),
        r matches Err(e) ==> e == CoverError::DecodeError,
        img.width >= 1 && img.height >= 1 ==> r is Ok,
{
    let buf = image::RgbaImage::from_raw(img.width, img.height, img.pixels.clone()).unwrap();
    let mut out: Vec<u8> = Vec::new();
    match buf.write_to(&mut std::io::Cursor::new(&mut out), image::ImageFormat::Png) {
        Ok(()) => Ok(out),
        Err(_) => Err(CoverError::DecodeError),
    }
}

/// One blended colour channel: `(fg*a + bg*(255 - a)) / 255`, the integer
/// form of `src*alpha + dst*(1-alpha)` with truncation.
pub open spec fn blend_channel(fg: u8, bg: u8, a: u8) -> u8 {
    ((fg * a + bg * (255 - a)) / 255) as u8
}

/// Alpha 255 replaces the destination channel with the source channel.
pub proof fn lemma_blend_opaque(fg: u8, bg: u8)
    ensures
        blend_channel(fg, bg, 255) == fg,
{
    assert((fg * 255 + bg * (255 - 255)) / 255 == fg) by (nonlinear_arith);
}

/// One blended colour channel, executable form.
fn blend(fg: u8, bg: u8, a: u8) -> (r: u8)
    ensures
        r == blend_channel(fg, bg, a),
{
    let f: u32 = fg as u32;
    let b: u32 = bg as u32;
    let al: u32 = a as u32;
    assert(f * al + b * (255 - al) <= 255 * 255) by (nonlinear_arith)
        requires
            f <= 255,
            b <= 255,
            al <= 255,
    ;
    let v: u32 = (f * al + b * (255 - al)) / 255;
    assert(v <= 255);
    v as u8
}

/// The byte at offset `k` after the overlay is stamped onto the base
/// image at pixel position `(px, py)`: covered pixels with a positive
/// overlay alpha take the blended channels and a fully opaque alpha,
/// every other byte keeps its old value.
pub open spec fn composed_byte(
    bw: u32,
    oldpx: Seq<u8>,
    ow: u32,
    oh: u32,
    ovpx: Seq<u8>,
    px: int,
    py: int,
    k: int,
) -> u8 {
    if bw == 0 {
        oldpx[k]
    } else {
        let p = k / 4;
        let c = k % 4;
        let y = p / (bw as int);
        let x = p % (bw as int);
        if px <= x < px + ow && py <= y < py + oh {
            let o = 4 * ((y - py) * ow + (x - px));
            let a = ovpx[o + 3];
            if a > 0 {
                if c == 3 {
                    255u8
                } else {
                    blend_channel(ovpx[o + c], oldpx[k], a)
                }
            } else {
                oldpx[k]
            }
        } else {
            oldpx[k]
        }
    }
}

/// The whole buffer after the overlay is stamped onto the base image.
pub open spec fn composed_px(
    bw: u32,
    oldpx: Seq<u8>,
    ow: u32,
    oh: u32,
    ovpx: Seq<u8>,
    px: int,
    py: int,
) -> Seq<u8> {
    Seq::new(oldpx.len(), |k: int| composed_byte(bw, oldpx, ow, oh, ovpx, px, py, k))
}

/// An overlay pixel with alpha 0 leaves all four destination bytes
/// unchanged.
pub proof fn lemma_alpha_zero_keeps_destination(
    bw: u32,
    oldpx: Seq<u8>,
    ow: u32,
    oh: u32,
    ovpx: Seq<u8>,
    px: int,
    py: int,
    k: int,
)
    requires
        0 <= k < oldpx.len(),
        bw > 0,
        px <= (k / 4) % (bw as int) < px + ow,
        py <= (k / 4) / (bw as int) < py + oh,
        ovpx[4 * (((k / 4) / (bw as int) - py) * ow + ((k / 4) % (bw as int) - px)) + 3] == 0,
    ensures
        composed_byte(bw, oldpx, ow, oh, ovpx, px, py, k) == oldpx[k],
{
}

/// An overlay pixel with alpha 255 fully replaces the destination's
/// colour channels and forces its alpha byte to 255.
pub proof fn lemma_alpha_full_replaces_destination(
    bw: u32,
    oldpx: Seq<u8>,
    ow: u32,
    oh: u32,
    ovpx: Seq<u8>,
    px: int,
    py: int,
    k: int,
)
    requires
        0 <= k < oldpx.len(),
        bw > 0,
        px <= (k / 4) % (bw as int) < px + ow,
        py <= (k / 4) / (bw as int) < py + oh,
        ovpx[4 * (((k / 4) / (bw as int) - py) * ow + ((k / 4) % (bw as int) - px)) + 3] == 255,
    ensures
        k % 4 < 3 ==> composed_byte(bw, oldpx, ow, oh, ovpx, px, py, k) == ovpx[4 * (((k / 4) / (
        bw as int) - py) * ow + ((k / 4) % (bw as int) - px)) + k % 4],
        k % 4 == 3 ==> composed_byte(bw, oldpx, ow, oh, ovpx, px, py, k) == 255,
{
    let o = 4 * (((k / 4) / (bw as int) - py) * ow + ((k / 4) % (bw as int) - px));
    if k % 4 < 3 {
        lemma_blend_opaque(ovpx[o + k % 4], oldpx[k]);
    }
}

/// Row-major coordinates stay inside the buffer.
pub(crate) proof fn lemma_row_major_bound(x: int, y: int, w: int, h: int)
    requires
        0 <= x < w,
        0 <= y < h,
    ensures
        0 <= y * w + x < w * h,
        4 * (y * w + x) + 4 <= 4 * (w * h),
    decreases h,
{
    assert(y * w + x < w * h) by (nonlinear_arith)
        requires
            0 <= x < w,
            0 <= y < h,
    ;
    assert(y * w + x >= 0) by (nonlinear_arith)
        requires
            0 <= x,
            0 <= y,
            w > 0,
    ;
}

/// A byte offset built from row-major coordinates decodes back to them.
pub(crate) proof fn lemma_pixel_coords(bw: int, x: int, y: int, c: int)
    requires
        bw > 0,
        0 <= x < bw,
        0 <= y,
        0 <= c < 4,
    ensures
        (4 * (y * bw + x) + c) / 4 == y * bw + x,
        (4 * (y * bw + x) + c) % 4 == c,
        (y * bw + x) / bw == y,
        (y * bw + x) % bw == x,
{
    lemma_fundamental_div_mod_converse(4 * (y * bw + x) + c, 4, y * bw + x, c);
    lemma_fundamental_div_mod_converse(y * bw + x, bw, y, x);
}

/// Stamp the overlay onto the base buffer at pixel position `(px, py)`
/// with per-pixel alpha blending; destination alpha is forced to fully
/// opaque wherever the overlay is visible.
pub fn alpha_blend_overlay(
    bw: u32,
    bh: u32,
    base: &mut Vec<u8>,
    ow: u32,
    oh: u32,
    ov: &Vec<u8>,
    px: u32,
    py: u32,
)
    requires
        old(base)@.len() == 4 * bw * bh,
        ov@.len() == 4 * ow * oh,
    ensures
        final(base)@ == composed_px(bw, old(base)@, ow, oh, ov@, px as int, py as int),
{
    let ghost oldpx = base@;
    let base_len = base.len();
    let ov_len = ov.len();
    let mut oy: u32 = 0;
    while oy < oh
        invariant
            base@.len() == oldpx.len(),
            oldpx.len() == 4 * bw * bh,
            ov@.len() == 4 * ow * oh,
            base_len == base@.len(),
            ov_len == ov@.len(),
            0 <= oy <= oh,
            forall|k: int|
                0 <= k < base@.len() ==> base@[k] == (if processed(
                    bw,
                    ow,
                    oh,
                    px as int,
                    py as int,
                    oy as int,
                    0,
                    k,
                ) {
                    composed_byte(bw, oldpx, ow, oh, ov@, px as int, py as int, k)
                } else {
                    oldpx[k]
                }),
        decreases oh - oy,
    {
        let mut ox: u32 = 0;
        while ox < ow
            invariant
                base@.len() == oldpx.len(),
                oldpx.len() == 4 * bw * bh,
                ov@.len() == 4 * ow * oh,
                base_len == base@.len(),
                ov_len == ov@.len(),
                0 <= oy < oh,
                0 <= ox <= ow,
                forall|k: int|
                    0 <= k < base@.len() ==> base@[k] == (if processed(
                        bw,
                        ow,
                        oh,
                        px as int,
                        py as int,
                        oy as int,
                        ox as int,
                        k,
                    ) {
                        composed_byte(bw, oldpx, ow, oh, ov@, px as int, py as int, k)
                    } else {
                        oldpx[k]
                    }),
            decreases ow - ox,
        {
            let dst_x: u64 = px as u64 + ox as u64;
            let dst_y: u64 = py as u64 + oy as u64;
            if dst_x < bw as u64 && dst_y < bh as u64 {
                proof {
                    lemma_row_major_bound(ox as int, oy as int, ow as int, oh as int);
                    lemma_row_major_bound(dst_x as int, dst_y as int, bw as int, bh as int);
                    assert(ov@.len() == 4 * ((ow as int) * (oh as int))) by (nonlinear_arith)
                        requires
                            ov@.len() == 4 * ow * oh,
                    ;
                    assert(base@.len() == 4 * ((bw as int) * (bh as int))) by (nonlinear_arith)
                        requires
                            base@.len() == 4 * bw * bh,
                    ;
                }
                let o: usize = 4 * ((oy as usize) * (ow as usize) + (ox as usize));
                let a = ov[o + 3];
                if a > 0 {
                    let k0: usize = 4 * ((dst_y as usize) * (bw as usize) + (dst_x as usize));
                    proof {
                        assert forall|c: int| 0 <= c < 4 implies #[trigger] base@[k0 + c]
                            == oldpx[k0 + c] && !processed(
                            bw,
                            ow,
                            oh,
                            px as int,
                            py as int,
                            oy as int,
                            ox as int,
                            k0 + c,
                        ) by {
                            lemma_pixel_coords(bw as int, dst_x as int, dst_y as int, c);
                        }
                    }
                    let b0 = blend(ov[o], base[k0], a);
                    let b1 = blend(ov[o + 1], base[k0 + 1], a);
                    let b2 = blend(ov[o + 2], base[k0 + 2], a);
                    base[k0] = b0;
                    base[k0 + 1] = b1;
                    base[k0 + 2] = b2;
                    base[k0 + 3] = 255;
                }
                proof {
                    step_preserves(
                        bw,
                        bh,
                        oldpx,
                        ow,
                        oh,
                        ov@,
                        px as int,
                        py as int,
                        oy as int,
                        ox as int,
                        base@,
                    );
                }
            } else {
                proof {
                    step_skips(
                        bw,
                        bh,
                        oldpx,
                        ow,
                        oh,
                        ov@,
                        px as int,
                        py as int,
                        oy as int,
                        ox as int,
                        base@,
                    );
                }
            }
            ox += 1;
        }
        assert(forall|k: int|
            0 <= k < base@.len() ==> processed(
                bw,
                ow,
                oh,
                px as int,
                py as int,
                oy as int,
                ow as int,
                k,
            ) == processed(bw, ow, oh, px as int, py as int, oy + 1, 0, k));
        oy += 1;
    }
    assert(base@ =~= composed_px(bw, oldpx, ow, oh, ov@, px as int, py as int)) by {
        assert(forall|k: int|
            0 <= k < base@.len() ==> processed(
                bw,
                ow,
                oh,
                px as int,
                py as int,
                oh as int,
                0,
                k,
            ) || composed_byte(bw, oldpx, ow, oh, ov@, px as int, py as int, k) == oldpx[k]);
    }
}

/// The pixel holding byte `k` lies in the overlay region and has already
/// been visited by the scan that stands at overlay coordinates
/// `(ox_cur, oy_cur)`.
pub open spec fn processed(
    bw: u32,
    ow: u32,
    oh: u32,
    px: int,
    py: int,
    oy_cur: int,
    ox_cur: int,
    k: int,
) -> bool {
    if bw == 0 {
        false
    } else {
        let p = k / 4;
        let y = p / (bw as int);
        let x = p % (bw as int);
        px <= x < px + ow && py <= y < py + oh && ((y - py) < oy_cur || ((y - py) == oy_cur && (x
            - px) < ox_cur))
    }
}

/// One visited overlay pixel extends the processed region by exactly the
/// four bytes of its destination pixel (which the loop just wrote).
proof fn step_preserves(
    bw: u32,
    bh: u32,
    oldpx: Seq<u8>,
    ow: u32,
    oh: u32,
    ovpx: Seq<u8>,
    px: int,
    py: int,
    oy: int,
    ox: int,
    newpx: Seq<u8>,
)
    requires
        oldpx.len() == 4 * bw * bh,
        newpx.len() == oldpx.len(),
        ovpx.len() == 4 * ow * oh,
        0 <= oy < oh,
        0 <= ox < ow,
        px >= 0,
        py >= 0,
        px + ox < bw,
        py + oy < bh,
        ({
            let o = 4 * (oy * ow + ox);
            let k0 = 4 * ((py + oy) * bw + (px + ox));
            let a = ovpx[o + 3];
            forall|k: int|
                0 <= k < newpx.len() ==> newpx[k] == (if k0 <= k < k0 + 4 && a > 0 {
                    if k == k0 + 3 {
                        255u8
                    } else {
                        blend_channel(ovpx[o + (k - k0)], oldpx[k], a)
                    }
                } else if processed(bw, ow, oh, px, py, oy, ox, k) {
                    composed_byte(bw, oldpx, ow, oh, ovpx, px, py, k)
                } else {
                    oldpx[k]
                })
        }),
    ensures
        forall|k: int|
            0 <= k < newpx.len() ==> newpx[k] == (if processed(bw, ow, oh, px, py, oy, ox + 1, k) {
                composed_byte(bw, oldpx, ow, oh, ovpx, px, py, k)
            } else {
                oldpx[k]
            }),
{
    let o = 4 * (oy * ow + ox);
    let k0 = 4 * ((py + oy) * bw + (px + ox));
    lemma_row_major_bound(ox, oy, ow as int, oh as int);
    lemma_row_major_bound(px + ox, py + oy, bw as int, bh as int);
    let a = ovpx[o + 3];
    assert forall|k: int| 0 <= k < newpx.len() implies newpx[k] == (if processed(
        bw,
        ow,
        oh,
        px,
        py,
        oy,
        ox + 1,
        k,
    ) {
        composed_byte(bw, oldpx, ow, oh, ovpx, px, py, k)
    } else {
        oldpx[k]
    }) by {
        let p = k / 4;
        let c = k % 4;
        let y = p / (bw as int);
        let x = p % (bw as int);
        vstd::arithmetic::div_mod::lemma_fundamental_div_mod(k, 4);
        vstd::arithmetic::div_mod::lemma_fundamental_div_mod(p, bw as int);
        if k0 <= k < k0 + 4 {
            lemma_pixel_coords(bw as int, px + ox, py + oy, k - k0);
            assert(y == py + oy && x == px + ox && c == k - k0);
        } else {
            // k belongs to some other pixel: its coordinates differ.
            if 0 <= k && p == (py + oy) * (bw as int) + (px + ox) {
                lemma_pixel_coords(bw as int, px + ox, py + oy, 0);
                assert(k0 == 4 * p);
                assert(k0 <= k < k0 + 4) by {
                    vstd::arithmetic::div_mod::lemma_fundamental_div_mod(k, 4);
                }
            }
            assert(!(x == px + ox && y == py + oy) || !(0 <= k < newpx.len())) by {
                if 0 <= k < newpx.len() && x == px + ox && y == py + oy {
                    assert(p == y * (bw as int) + x);
                }
            }
        }
    }
}

/// A clipped or fully transparent overlay pixel extends the processed
/// region without changing any byte.
proof fn step_skips(
    bw: u32,
    bh: u32,
    oldpx: Seq<u8>,
    ow: u32,
    oh: u32,
    ovpx: Seq<u8>,
    px: int,
    py: int,
    oy: int,
    ox: int,
    newpx: Seq<u8>,
)
    requires
        oldpx.len() == 4 * bw * bh,
        newpx.len() == oldpx.len(),
        ovpx.len() == 4 * ow * oh,
        0 <= oy < oh,
        0 <= ox < ow,
        px >= 0,
        py >= 0,
        px + ox >= bw || py + oy >= bh,
        forall|k: int|
            0 <= k < newpx.len() ==> newpx[k] == (if processed(bw, ow, oh, px, py, oy, ox, k) {
                composed_byte(bw, oldpx, ow, oh, ovpx, px, py, k)
            } else {
                oldpx[k]
            }),
    ensures
        forall|k: int|
            0 <= k < newpx.len() ==> newpx[k] == (if processed(bw, ow, oh, px, py, oy, ox + 1, k) {
                composed_byte(bw, oldpx, ow, oh, ovpx, px, py, k)
            } else {
                oldpx[k]
            }),
{
    assert forall|k: int| 0 <= k < newpx.len() implies newpx[k] == (if processed(
        bw,
        ow,
        oh,
        px,
        py,
        oy,
        ox + 1,
        k,
    ) {
        composed_byte(bw, oldpx, ow, oh, ovpx, px, py, k)
    } else {
        oldpx[k]
    }) by {
        let p = k / 4;
        let y = p / (bw as int);
        let x = p % (bw as int);
        vstd::arithmetic::div_mod::lemma_fundamental_div_mod(k, 4);
        vstd::arithmetic::div_mod::lemma_fundamental_div_mod(p, bw as int);
        assert(oldpx.len() == 4 * ((bw as int) * (bh as int))) by (nonlinear_arith)
            requires
                oldpx.len() == 4 * bw * bh,
        ;
        assert(k < 4 * ((bw as int) * (bh as int)));
        if bw > 0 && processed(bw, ow, oh, px, py, oy, ox + 1, k) && !processed(
            bw,
            ow,
            oh,
            px,
            py,
            oy,
            ox,
            k,
        ) {
            // The newly covered pixel would have to sit at (px+ox, py+oy),
            // which lies outside the base image.
            assert(x == px + ox && y == py + oy);
            assert(0 <= p < (bw as int) * (bh as int)) by (nonlinear_arith)
                requires
                    k == 4 * p + k % 4,
                    0 <= k % 4 < 4,
                    0 <= k,
                    k < 4 * ((bw as int) * (bh as int)),
            ;
            assert(y < bh) by (nonlinear_arith)
                requires
                    0 <= p < (bw as int) * (bh as int),
                    bw > 0,
                    y == p / (bw as int),
                    0 <= y,
            ;
            assert(x < bw);
            assert(false);
        }
    }
}

/// The overlay's square edge for a requested thumbnail size: a fifth of
/// it, kept between 24 and 48 pixels.
pub open spec fn overlay_edge(size: u32) -> u32 {
    let t = size / 5;
    if t < 24 {
        24
    } else if t > 48 {
        48
    } else {
        t
    }
}

/// Where the overlay's top-left pixel lands: the bottom-right corner with
/// a four-pixel margin, clamped to the top-left when the overlay does not
/// fit.
pub open spec fn corner_coord(extent: u32, ov_extent: u32) -> int {
    if extent >= ov_extent + 4 {
        extent - (ov_extent + 4)
    } else {
        0
    }
}

/// The view of an optional overlay byte argument.
pub open spec fn opt_view(o: Option<&Vec<u8>>) -> Option<Seq<u8>> {
    match o {
        Some(v) => Some(v@),
        None => None,
    }
}

/// The branded thumbnail the compositor produces: the cover decoded and
/// scaled to fit the requested square, the overlay (when present and
/// decodable) scaled and alpha-blended into the bottom-right corner, the
/// whole re-encoded as a PNG.  A missing or undecodable overlay is never
/// fatal; an undecodable cover is.
pub open spec fn thumbnail_of(cover: Seq<u8>, size: u32, overlay: Option<Seq<u8>>) -> Result<
    Seq<u8>,
    CoverError,
> {
    match decoded_rgba(cover) {
        None => Err(CoverError::DecodeError),
        Some(img) => {
            let t = thumb_rgba(img.0, img.1, img.2, size);
            let stamped = match overlay {
                None => t.2,
                Some(ovb) => match decoded_rgba(ovb) {
                    None => t.2,
                    Some(ov0) => {
                        let e = overlay_edge(size);
                        let ov = lanczos_rgba(ov0.0, ov0.1, ov0.2, e, e);
                        composed_px(
                            t.0,
                            t.2,
                            ov.0,
                            ov.1,
                            ov.2,
                            corner_coord(t.0, ov.0),
                            corner_coord(t.1, ov.1),
                        )
                    },
                },
            };
            match png_encoding(t.0, t.1, stamped) {
                Some(p) => Ok(p),
                None => Err(CoverError::DecodeError),
            }
        },
    }
}

/// Compose the branded thumbnail: decode the cover, scale it to fit the
/// requested square, stamp the overlay into the bottom-right corner, and
/// encode the result as a PNG.
pub fn create_thumbnail_with_overlay(
    cover_bytes: &Vec<u8>,
    requested_size: u32,
    overlay: Option<&Vec<u8>>,
) -> (r: Result<Vec<u8>, CoverError>)
    ensures
        crate::res_bytes_is(r, thumbnail_of(cover_bytes@, requested_size, opt_view(overlay))),
        requested_size >= 1 && (decoded_rgba(cover_bytes@) matches Some(d) && d.0 >= 1 && d.1
            >= 1) ==> r is Ok,
{
    let img = match decode_rgba(cover_bytes) {
        Ok(i) => i,
        Err(e) => {
            return Err(e);
        },
    };
    let mut base = thumbnail_rgba(&img, requested_size);
    if let Some(ovb) = overlay {
        if let Ok(ovimg) = decode_rgba(ovb) {
            let t = requested_size / 5;
            let edge: u32 = if t < 24 {
                24
            } else if t > 48 {
                48
            } else {
                t
            };
            let ov = resize_lanczos(&ovimg, edge, edge);
            let px: u32 = if base.width as u64 >= ov.width as u64 + 4 {
                base.width - (ov.width + 4)
            } else {
                0
            };
            let py: u32 = if base.height as u64 >= ov.height as u64 + 4 {
                base.height - (ov.height + 4)
            } else {
                0
            };
            let bw = base.width;
            let bh = base.height;
            alpha_blend_overlay(bw, bh, &mut base.pixels, ov.width, ov.height, &ov.pixels, px, py);
            assert(base.wf());
        }
    }
    encode_png(&base)
}

} // verus!
