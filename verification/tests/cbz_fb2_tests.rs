use std::io::Write;

use inkline_thumbs::CoverError;
use inkline_thumbs::cbz::extract_cbz_cover_bytes;
use inkline_thumbs::fb2::extract_fb2_cover_bytes;

fn build_zip(entries: &[(&str, &[u8])]) -> Vec<u8> {
    let mut w = zip::ZipWriter::new(std::io::Cursor::new(Vec::new()));
    for (name, content) in entries {
        w.start_file(*name, zip::write::SimpleFileOptions::default()).unwrap();
        w.write_all(content).unwrap();
    }
    w.finish().unwrap().into_inner()
}

#[test]
fn lexicographically_first_image_is_the_cover() {
    let p3 = b"PAGE3".to_vec();
    let p1 = b"PAGE1".to_vec();
    let p2 = b"PAGE2".to_vec();
    let data = build_zip(&[
        ("003.jpg", p3.as_slice()),
        ("001.jpg", p1.as_slice()),
        ("002.jpg", p2.as_slice()),
    ]);
    let got = extract_cbz_cover_bytes(&data).unwrap();
    assert_eq!(got, p1);
}

#[test]
fn non_image_entries_are_ignored() {
    let page = b"PAGEDATA".to_vec();
    let data = build_zip(&[
        ("000_info.txt", b"metadata sorts first"),
        ("010.png", page.as_slice()),
    ]);
    let got = extract_cbz_cover_bytes(&data).unwrap();
    assert_eq!(got, page);
}

#[test]
fn cbz_archive_without_images_reports_no_cover() {
    let data = build_zip(&[("readme.txt", b"no pages")]);
    assert_eq!(extract_cbz_cover_bytes(&data), Err(CoverError::NoCoverFound));
}

#[test]
fn coverpage_reference_selects_its_own_binary() {
    let doc = br##"<FictionBook>
<binary id="decoy" content-type="image/jpeg">QUJD</binary>
<description><coverpage><image l:href="#im1"/></coverpage></description>
<binary id="im1" content-type="image/jpeg">SU1BR0U=</binary>
</FictionBook>"##
        .to_vec();
    let got = extract_fb2_cover_bytes(&doc).unwrap();
    assert_eq!(got, b"IMAGE".to_vec());
}

#[test]
fn dangling_reference_falls_back_to_first_binary() {
    let doc = br##"<FictionBook>
<description><coverpage><image l:href="#ghost"/></coverpage></description>
<binary id="other">QUJD</binary>
</FictionBook>"##
        .to_vec();
    let got = extract_fb2_cover_bytes(&doc).unwrap();
    assert_eq!(got, b"ABC".to_vec());
}

#[test]
fn missing_coverpage_takes_first_binary() {
    let doc = br#"<FictionBook><binary id="b1">aGVsbG8=</binary></FictionBook>"#.to_vec();
    let got = extract_fb2_cover_bytes(&doc).unwrap();
    assert_eq!(got, b"hello".to_vec());
}

#[test]
fn whitespace_inside_payload_is_stripped() {
    let doc = b"<x><binary id=\"b\">aGVs\n  bG8=\r\n</binary></x>".to_vec();
    let got = extract_fb2_cover_bytes(&doc).unwrap();
    assert_eq!(got, b"hello".to_vec());
}

#[test]
fn undecodable_payload_reports_no_cover() {
    let doc = b"<x><binary id=\"b\">!!!not-base64!!!</binary></x>".to_vec();
    assert_eq!(extract_fb2_cover_bytes(&doc), Err(CoverError::NoCoverFound));
}

#[test]
fn document_without_binary_reports_no_cover() {
    let doc = b"<FictionBook><body>just text</body></FictionBook>".to_vec();
    assert_eq!(extract_fb2_cover_bytes(&doc), Err(CoverError::NoCoverFound));
}
