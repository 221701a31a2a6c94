use inkline_thumbs::imgio::alpha_blend_overlay;
use inkline_thumbs::imgio::create_thumbnail_with_overlay;
use inkline_thumbs::txt::extract_txt_cover_bytes;

fn encode_png_rgba(img: image::RgbaImage) -> Vec<u8> {
    let mut out = Vec::new();
    image::DynamicImage::ImageRgba8(img)
        .write_to(&mut std::io::Cursor::new(&mut out), image::ImageFormat::Png)
        .unwrap();
    out
}

#[test]
fn txt_placeholder_is_a_bordered_square_of_the_requested_size() {
    let data = b"any file content whatsoever".to_vec();
    let png = extract_txt_cover_bytes(&data, 256).unwrap();
    let img = image::load_from_memory(&png).unwrap().to_rgba8();
    assert_eq!(img.width(), 256);
    assert_eq!(img.height(), 256);
    // Border pixels are the darker grey, fully opaque.
    assert_eq!(img.get_pixel(0, 0).0, [200, 200, 200, 255]);
    assert_eq!(img.get_pixel(255, 0).0, [200, 200, 200, 255]);
    assert_eq!(img.get_pixel(0, 255).0, [200, 200, 200, 255]);
    assert_eq!(img.get_pixel(255, 255).0, [200, 200, 200, 255]);
    assert_eq!(img.get_pixel(128, 0).0, [200, 200, 200, 255]);
    assert_eq!(img.get_pixel(0, 128).0, [200, 200, 200, 255]);
    // Interior pixels are the lighter grey.
    assert_eq!(img.get_pixel(1, 1).0, [245, 245, 245, 255]);
    assert_eq!(img.get_pixel(128, 128).0, [245, 245, 245, 255]);
    assert_eq!(img.get_pixel(254, 254).0, [245, 245, 245, 255]);
}

#[test]
fn txt_placeholder_ignores_file_content() {
    let a = extract_txt_cover_bytes(&b"one".to_vec(), 64).unwrap();
    let b = extract_txt_cover_bytes(&vec![0xAB; 4096], 64).unwrap();
    assert_eq!(a, b);
}

#[test]
fn blend_keeps_destination_under_transparent_pixels_and_replaces_under_opaque() {
    // 2x2 base, distinct pixels.
    let mut base = vec![
        10, 11, 12, 13, /* (0,0) */ 20, 21, 22, 23, /* (1,0) */
        30, 31, 32, 33, /* (0,1) */ 40, 41, 42, 43, /* (1,1) */
    ];
    // 2x1 overlay at (0,0): first pixel fully transparent, second opaque.
    let ov = vec![90, 91, 92, 0, /* alpha 0 */ 1, 2, 3, 255 /* alpha 255 */];
    alpha_blend_overlay(2, 2, &mut base, 2, 1, &ov, 0, 0);
    // Alpha 0: destination untouched, its own alpha included.
    assert_eq!(&base[0..4], &[10, 11, 12, 13]);
    // Alpha 255: colour replaced, alpha forced fully opaque.
    assert_eq!(&base[4..8], &[1, 2, 3, 255]);
    // Uncovered pixels untouched.
    assert_eq!(&base[8..16], &[30, 31, 32, 33, 40, 41, 42, 43]);
}

#[test]
fn blend_mixes_partial_alpha_channelwise() {
    let mut base = vec![100, 100, 100, 50];
    let ov = vec![200, 0, 100, 128];
    alpha_blend_overlay(1, 1, &mut base, 1, 1, &ov, 0, 0);
    let expect = |fg: u32, bg: u32| ((fg * 128 + bg * 127) / 255) as u8;
    assert_eq!(base[0], expect(200, 100));
    assert_eq!(base[1], expect(0, 100));
    assert_eq!(base[2], expect(100, 100));
    assert_eq!(base[3], 255);
}

#[test]
fn thumbnail_fits_in_the_requested_square() {
    let cover = encode_png_rgba(image::RgbaImage::from_pixel(
        100,
        50,
        image::Rgba([10, 200, 30, 255]),
    ));
    let png = create_thumbnail_with_overlay(&cover, 40, None).unwrap();
    let img = image::load_from_memory(&png).unwrap().to_rgba8();
    assert!(img.width() <= 40 && img.height() <= 40);
    assert_eq!(img.get_pixel(0, 0).0, [10, 200, 30, 255]);
}

#[test]
fn thumbnail_with_overlay_stamps_the_corner() {
    // A flat black cover and a flat opaque white overlay: after
    // compositing, the bottom-right corner region must be white while the
    // top-left stays black.
    let cover = encode_png_rgba(image::RgbaImage::from_pixel(
        400,
        400,
        image::Rgba([0, 0, 0, 255]),
    ));
    let over = encode_png_rgba(image::RgbaImage::from_pixel(
        64,
        64,
        image::Rgba([255, 255, 255, 255]),
    ));
    let png = create_thumbnail_with_overlay(&cover, 200, Some(&over)).unwrap();
    let img = image::load_from_memory(&png).unwrap().to_rgba8();
    assert_eq!(img.width(), 200);
    assert_eq!(img.height(), 200);
    assert_eq!(img.get_pixel(0, 0).0, [0, 0, 0, 255]);
    // Overlay edge for size 200 is 40, with a 4 pixel margin: pixels from
    // (156, 156) to (195, 195) carry the overlay.
    assert_eq!(img.get_pixel(180, 180).0, [255, 255, 255, 255]);
    assert_eq!(img.get_pixel(197, 197).0, [0, 0, 0, 255]);
}

#[test]
fn broken_overlay_bytes_are_not_fatal() {
    let cover = encode_png_rgba(image::RgbaImage::from_pixel(
        20,
        20,
        image::Rgba([5, 6, 7, 255]),
    ));
    let junk = b"not an image".to_vec();
    let png = create_thumbnail_with_overlay(&cover, 10, Some(&junk)).unwrap();
    let img = image::load_from_memory(&png).unwrap().to_rgba8();
    assert_eq!(img.get_pixel(5, 5).0, [5, 6, 7, 255]);
}

#[test]
fn undecodable_cover_is_fatal() {
    let junk = b"definitely not an image".to_vec();
    assert_eq!(
        create_thumbnail_with_overlay(&junk, 64, None),
        Err(inkline_thumbs::CoverError::DecodeError)
    );
}
