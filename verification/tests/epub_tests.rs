use std::io::Write;

use inkline_thumbs::CoverError;
use inkline_thumbs::epub::extract_epub_cover_bytes;

fn build_zip(entries: &[(&str, &[u8])]) -> Vec<u8> {
    let mut w = zip::ZipWriter::new(std::io::Cursor::new(Vec::new()));
    for (name, content) in entries {
        w.start_file(*name, zip::write::SimpleFileOptions::default()).unwrap();
        w.write_all(content).unwrap();
    }
    w.finish().unwrap().into_inner()
}

#[test]
fn exact_cover_name_beats_larger_partial_match() {
    let small = b"JPGDATA".to_vec();
    let large = vec![7u8; 500];
    let data = build_zip(&[
        ("images/cover_full.png", large.as_slice()),
        ("images/cover.jpg", small.as_slice()),
        ("chapter1.html", b"<p>text</p>"),
    ]);
    let got = extract_epub_cover_bytes(&data).unwrap();
    assert_eq!(got, small);
}

#[test]
fn larger_size_wins_between_equal_ranks() {
    let a = vec![1u8; 10];
    let b = vec![2u8; 300];
    let data = build_zip(&[
        ("front_a.jpg", a.as_slice()),
        ("front_b.jpg", b.as_slice()),
    ]);
    let got = extract_epub_cover_bytes(&data).unwrap();
    assert_eq!(got, b);
}

#[test]
fn manifest_meta_cover_resolves_relative_href() {
    let container = br#"<?xml version="1.0"?>
<container><rootfiles><rootfile full-path="OEBPS/content.opf" media-type="application/oebps-package+xml"/></rootfiles></container>"#;
    let opf = br#"<?xml version="1.0"?>
<package><metadata><meta name="cover" content="c1"/></metadata>
<manifest><item id="c1" href="img/c1.jpg" media-type="image/jpeg"/></manifest></package>"#;
    let cover = b"C1IMAGE".to_vec();
    // A much larger decoy image: the largest-image fallback would pick it,
    // so only the manifest pass can produce `img/c1.jpg`.
    let decoy = vec![9u8; 4000];
    let data = build_zip(&[
        ("META-INF/container.xml", container.as_slice()),
        ("OEBPS/content.opf", opf.as_slice()),
        ("OEBPS/img/c1.jpg", cover.as_slice()),
        ("OEBPS/img/decoy.png", decoy.as_slice()),
        ("OEBPS/text.html", b"<p>x</p>"),
    ]);
    let got = extract_epub_cover_bytes(&data).unwrap();
    assert_eq!(got, cover);
}

#[test]
fn manifest_falls_back_to_first_image_item() {
    let container =
        br#"<container><rootfiles><rootfile full-path="pkg.opf"/></rootfiles></container>"#;
    let opf = br#"<package><manifest>
<item id="t1" href="text.html" media-type="application/xhtml+xml"/>
<item id="p1" href="pic.png" media-type="image/png"/>
</manifest></package>"#;
    let pic = b"PNGBYTES".to_vec();
    let decoy = vec![8u8; 4000];
    let data = build_zip(&[
        ("META-INF/container.xml", container.as_slice()),
        ("pkg.opf", opf.as_slice()),
        ("pic.png", pic.as_slice()),
        ("bigger.gif", decoy.as_slice()),
    ]);
    // "pic.png" mentions neither "cover" nor "front" and is the smaller
    // image, so only the manifest's first-image item can select it.
    let got = extract_epub_cover_bytes(&data).unwrap();
    assert_eq!(got, pic);
}

#[test]
fn manifest_fallback_follows_declaration_order() {
    let container =
        br#"<container><rootfiles><rootfile full-path="pkg.opf"/></rootfiles></container>"#;
    // The PNG item is declared before the JPEG item; declaration order,
    // not media-type preference, must decide.
    let opf = br#"<package><manifest>
<item id="p1" href="first.png" media-type="image/png"/>
<item id="j1" href="second.jpg" media-type="image/jpeg"/>
</manifest></package>"#;
    let first = b"FIRSTPNG".to_vec();
    let second = vec![5u8; 3000];
    let data = build_zip(&[
        ("META-INF/container.xml", container.as_slice()),
        ("pkg.opf", opf.as_slice()),
        ("first.png", first.as_slice()),
        ("second.jpg", second.as_slice()),
    ]);
    let got = extract_epub_cover_bytes(&data).unwrap();
    assert_eq!(got, first);
}

#[test]
fn largest_image_is_last_resort() {
    let small = vec![3u8; 10];
    let large = vec![4u8; 400];
    let data = build_zip(&[
        ("a.png", small.as_slice()),
        ("b.png", large.as_slice()),
        ("story.txt", b"words"),
    ]);
    let got = extract_epub_cover_bytes(&data).unwrap();
    assert_eq!(got, large);
}

#[test]
fn archive_without_images_reports_no_cover() {
    let data = build_zip(&[("story.txt", b"words")]);
    assert_eq!(extract_epub_cover_bytes(&data), Err(CoverError::NoCoverFound));
}

#[test]
fn garbage_bytes_report_container_error() {
    let data = b"this is not a zip archive at all".to_vec();
    assert_eq!(extract_epub_cover_bytes(&data), Err(CoverError::ContainerError));
}
