use std::io::Write;

use inkline_thumbs::CoverError;
use inkline_thumbs::dispatch::BookFormat;
use inkline_thumbs::dispatch::format_for_extension;
use inkline_thumbs::dispatch::is_image_extension;
use inkline_thumbs::extract::extract_cover_bytes_by_ext;
use inkline_thumbs::extract::thumbnail_from_data;
use inkline_thumbs::provider::BookPresenceData;
use inkline_thumbs::provider::ThumbnailProvider;
use inkline_thumbs::provider::ThumbnailProviderFactory;
use inkline_thumbs::provider::default_query_extension;
use inkline_thumbs::provider::executable_matches_app;
use inkline_thumbs::provider::extension_of_path;
use inkline_thumbs::provider::is_readest_default_for_file;
use inkline_thumbs::provider::presence_fields;
use inkline_thumbs::provider::truncate_string;

#[test]
fn every_supported_extension_routes_to_its_extractor() {
    assert_eq!(format_for_extension(b"epub"), BookFormat::Epub);
    for e in [b"mobi".as_slice(), b"azw", b"azw3", b"kf8", b"prc"] {
        assert_eq!(format_for_extension(e), BookFormat::Mobi);
    }
    assert_eq!(format_for_extension(b"cbz"), BookFormat::Cbz);
    assert_eq!(format_for_extension(b"cbr"), BookFormat::Cbz);
    assert_eq!(format_for_extension(b"fb2"), BookFormat::Fb2);
    assert_eq!(format_for_extension(b"txt"), BookFormat::Txt);
    assert_eq!(format_for_extension(b"pdf"), BookFormat::Unsupported);
    assert_eq!(format_for_extension(b""), BookFormat::Unsupported);
}

#[test]
fn image_names_are_recognised_by_suffix() {
    assert!(is_image_extension(b"dir/cover.jpg"));
    assert!(is_image_extension(b"a.jpeg"));
    assert!(is_image_extension(b"a.png"));
    assert!(is_image_extension(b"a.gif"));
    assert!(is_image_extension(b"a.webp"));
    assert!(is_image_extension(b"a.bmp"));
    assert!(!is_image_extension(b"a.txt"));
    assert!(!is_image_extension(b"jpg"));
}

#[test]
fn unsupported_extension_is_terminal() {
    let data = b"whatever".to_vec();
    assert_eq!(extract_cover_bytes_by_ext(&data, b"pdf"), Err(CoverError::UnsupportedFormat));
    assert_eq!(
        thumbnail_from_data(&data, b"docx", 64, None),
        Err(CoverError::UnsupportedFormat)
    );
}

#[test]
fn extension_case_is_ignored_by_the_dispatcher() {
    let data = b"irrelevant".to_vec();
    let a = extract_cover_bytes_by_ext(&data, b"TXT").unwrap();
    let b = extract_cover_bytes_by_ext(&data, b"txt").unwrap();
    assert_eq!(a, b);
}

#[test]
fn pipeline_is_deterministic_on_identical_inputs() {
    let mut w = zip::ZipWriter::new(std::io::Cursor::new(Vec::new()));
    w.start_file("cover.png", zip::write::SimpleFileOptions::default()).unwrap();
    let mut png = Vec::new();
    image::DynamicImage::ImageRgba8(image::RgbaImage::from_pixel(
        30,
        30,
        image::Rgba([1, 2, 3, 255]),
    ))
        .write_to(&mut std::io::Cursor::new(&mut png), image::ImageFormat::Png)
        .unwrap();
    w.write_all(&png).unwrap();
    let data = w.finish().unwrap().into_inner();

    let first = thumbnail_from_data(&data, b"epub", 24, None).unwrap();
    let second = thumbnail_from_data(&data, b"epub", 24, None).unwrap();
    assert_eq!(first, second);
    let decoded = image::load_from_memory(&first).unwrap().to_rgba8();
    assert!(decoded.width() <= 24 && decoded.height() <= 24);
}

#[test]
fn extensions_are_read_from_the_last_path_component() {
    assert_eq!(extension_of_path(b"C:\\Books\\Story.EPUB"), b"epub".to_vec());
    assert_eq!(extension_of_path(b"/home/u/books/tale.mobi"), b"mobi".to_vec());
    assert_eq!(extension_of_path(b"/home/u.name/noext"), b"".to_vec());
    assert_eq!(extension_of_path(b".bashrc"), b"".to_vec());
    assert_eq!(extension_of_path(b"archive.tar.gz"), b"gz".to_vec());
}

#[test]
fn association_query_carries_a_dotted_lowercase_extension() {
    assert_eq!(
        default_query_extension(b"C:\\Books\\Story.EPUB"),
        Some(b".epub".to_vec())
    );
    assert_eq!(default_query_extension(b"C:\\Books\\noext"), None);
}

#[test]
fn the_association_answer_is_matched_case_insensitively() {
    assert!(executable_matches_app(b"C:\\Program Files\\Readest\\READEST.EXE"));
    assert!(!executable_matches_app(b"C:\\Windows\\notepad.exe"));
}

#[test]
fn default_handler_needs_an_extension_and_a_matching_executable() {
    let exe = b"C:\\Apps\\Readest\\Readest.exe".to_vec();
    let other = b"C:\\Windows\\notepad.exe".to_vec();
    assert!(is_readest_default_for_file(b"C:\\B\\x.epub", Some(&exe)));
    assert!(!is_readest_default_for_file(b"C:\\B\\x.epub", Some(&other)));
    assert!(!is_readest_default_for_file(b"C:\\B\\x.epub", None));
    assert!(!is_readest_default_for_file(b"C:\\B\\noext", Some(&exe)));
}

#[test]
fn provider_keeps_the_file_only_when_it_is_the_default_handler() {
    let mut p = ThumbnailProvider::new();
    assert!(!p.should_provide);
    assert!(p.file_path.is_none() && p.file_ext.is_none());

    p.initialize(b"C:\\B\\x.Epub".to_vec(), false);
    assert!(!p.should_provide);
    assert!(p.file_path.is_none() && p.file_ext.is_none());

    p.initialize(b"C:\\B\\x.Epub".to_vec(), true);
    assert!(p.should_provide);
    assert_eq!(p.file_path, Some(b"C:\\B\\x.Epub".to_vec()));
    assert_eq!(p.file_ext, Some(b"epub".to_vec()));

    let _f = ThumbnailProviderFactory::new();
}

#[test]
fn long_presence_strings_are_cut_with_an_ellipsis() {
    assert_eq!(truncate_string(b"short", 128), b"short".to_vec());
    let long = vec![b'x'; 200];
    let cut = truncate_string(&long, 128);
    assert_eq!(cut.len(), 128);
    assert_eq!(&cut[125..], b"...");
}

#[test]
fn presence_fields_follow_the_update_rules() {
    let d = BookPresenceData {
        book_hash: b"h1".to_vec(),
        title: b"A Book".to_vec(),
        author: Some(b"An Author".to_vec()),
        cover_url: Some(b"https://covers.example/1.png".to_vec()),
        session_start: 1_700_000_123_456,
    };
    let f = presence_fields(&d);
    assert_eq!(f.details, b"A Book".to_vec());
    assert_eq!(f.state_line, Some(b"by An Author".to_vec()));
    assert_eq!(f.large_image, b"https://covers.example/1.png".to_vec());
    assert_eq!(f.start_secs, 1_700_000_123);

    let plain = BookPresenceData {
        book_hash: b"h2".to_vec(),
        title: b"T".to_vec(),
        author: None,
        cover_url: Some(b"http://insecure.example/c.png".to_vec()),
        session_start: 0,
    };
    let g = presence_fields(&plain);
    assert_eq!(g.state_line, None);
    assert_eq!(g.large_image, b"book_icon".to_vec());
    assert_eq!(g.start_secs, 0);
}

#[test]
fn junk_cover_bytes_inside_a_valid_archive_fail_to_decode() {
    let mut w = zip::ZipWriter::new(std::io::Cursor::new(Vec::new()));
    w.start_file("cover.png", zip::write::SimpleFileOptions::default()).unwrap();
    w.write_all(b"not really a png").unwrap();
    let data = w.finish().unwrap().into_inner();
    assert_eq!(
        thumbnail_from_data(&data, b"epub", 64, None),
        Err(CoverError::DecodeError)
    );
}

#[test]
fn broken_archive_surfaces_a_container_error_through_the_pipeline() {
    let data = b"garbage, not a zip".to_vec();
    assert_eq!(
        thumbnail_from_data(&data, b"cbz", 64, None),
        Err(CoverError::ContainerError)
    );
}
