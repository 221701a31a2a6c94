use inkline_thumbs::CoverError;
use inkline_thumbs::mobi::extract_mobi_cover_bytes;

fn put_be16(data: &mut [u8], at: usize, v: u16) {
    data[at] = (v >> 8) as u8;
    data[at + 1] = v as u8;
}

fn put_be32(data: &mut [u8], at: usize, v: u32) {
    data[at] = (v >> 24) as u8;
    data[at + 1] = (v >> 16) as u8;
    data[at + 2] = (v >> 8) as u8;
    data[at + 3] = v as u8;
}

/// A minimal Palm database: six records, record 0 holding the MOBI header
/// with an EXTH block, records 3..=5 standing for images.
fn build_mobi(exth_flags: u32, cover_offset: Option<u32>, signature: &[u8]) -> Vec<u8> {
    let mut d = vec![0u8; 460];
    d[60..68].copy_from_slice(b"BOOKMOBI");
    put_be16(&mut d, 76, 6);
    // Record offset table at 78: offsets of records 0..=5.
    let offsets = [126u32, 400, 410, 420, 430, 440];
    for (i, off) in offsets.iter().enumerate() {
        put_be32(&mut d, 78 + 8 * i, *off);
    }
    let r0 = 126usize;
    d[r0 + 16..r0 + 20].copy_from_slice(b"MOBI");
    put_be32(&mut d, r0 + 20, 232); // header length: EXTH at r0 + 16 + 232 = 374
    put_be32(&mut d, r0 + 108, 3); // first image record index
    put_be32(&mut d, r0 + 128, exth_flags);
    let exth = 374usize;
    d[exth..exth + 4].copy_from_slice(b"EXTH");
    match cover_offset {
        Some(off) => {
            put_be32(&mut d, exth + 4, 24); // total length (unused)
            put_be32(&mut d, exth + 8, 1); // one record
            put_be32(&mut d, exth + 12, 201); // CoverOffset
            put_be32(&mut d, exth + 16, 12); // record length
            put_be32(&mut d, exth + 20, off);
        },
        None => {
            put_be32(&mut d, exth + 4, 12);
            put_be32(&mut d, exth + 8, 0);
        },
    }
    // The cover record (440..460).
    d[440..440 + signature.len()].copy_from_slice(signature);
    // Record 3 (the first image record, 420..430) gets a JPEG signature so
    // the no-offset variant can succeed too.
    d[420..423].copy_from_slice(&[0xFF, 0xD8, 0xFF]);
    d
}

#[test]
fn cover_offset_record_selects_first_image_plus_offset() {
    let d = build_mobi(0x40, Some(2), &[0xFF, 0xD8, 0xFF, 1, 2, 3]);
    let got = extract_mobi_cover_bytes(&d).unwrap();
    // Record index 3 (first image) + 2 = record 5, bytes 440..460.
    assert_eq!(got, d[440..460].to_vec());
}

#[test]
fn missing_cover_record_uses_first_image_index() {
    let d = build_mobi(0x40, None, &[0u8; 3]);
    let got = extract_mobi_cover_bytes(&d).unwrap();
    assert_eq!(got, d[420..430].to_vec());
}

#[test]
fn png_signature_is_accepted() {
    let d = build_mobi(0x40, Some(2), &[0x89, 0x50, 0x4E, 0x47, 9]);
    let got = extract_mobi_cover_bytes(&d).unwrap();
    assert_eq!(&got[..4], &[0x89, 0x50, 0x4E, 0x47]);
}

#[test]
fn unrecognised_record_content_reports_no_cover() {
    let d = build_mobi(0x40, Some(2), b"notimg");
    assert_eq!(extract_mobi_cover_bytes(&d), Err(CoverError::NoCoverFound));
}

#[test]
fn missing_exth_flag_reports_no_cover() {
    let d = build_mobi(0, Some(2), &[0xFF, 0xD8, 0xFF]);
    assert_eq!(extract_mobi_cover_bytes(&d), Err(CoverError::NoCoverFound));
}

#[test]
fn out_of_range_cover_index_reports_no_cover() {
    let d = build_mobi(0x40, Some(40), &[0xFF, 0xD8, 0xFF]);
    assert_eq!(extract_mobi_cover_bytes(&d), Err(CoverError::NoCoverFound));
}

#[test]
fn truncated_exth_walk_is_a_container_error() {
    // The EXTH block claims far more records than the file holds; the
    // walk runs off the end of the data, a short read, which is a hard
    // format failure even though a cover record was already seen.
    let mut d = build_mobi(0x40, Some(2), &[0xFF, 0xD8, 0xFF]);
    put_be32(&mut d, 374 + 8, 100);
    assert_eq!(extract_mobi_cover_bytes(&d), Err(CoverError::ContainerError));
}

#[test]
fn wrong_type_marker_reports_container_error() {
    let mut d = build_mobi(0x40, Some(2), &[0xFF, 0xD8, 0xFF]);
    d[60..68].copy_from_slice(b"TEXtREAd");
    assert_eq!(extract_mobi_cover_bytes(&d), Err(CoverError::ContainerError));
}

#[test]
fn truncated_header_reports_container_error() {
    let d = vec![0u8; 40];
    assert_eq!(extract_mobi_cover_bytes(&d), Err(CoverError::ContainerError));
}
