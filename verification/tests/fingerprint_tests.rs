use inkline_thumbs::fingerprint::cache_key;
use inkline_thumbs::fingerprint::sample_windows;

#[test]
fn key_is_the_hex_digest_of_extension_size_and_windows() {
    let windows = vec![b"hello".to_vec(), b" world".to_vec()];
    let key = cache_key(b"epub", 256, &windows);

    let mut input: Vec<u8> = Vec::new();
    input.extend_from_slice(b"epub");
    input.extend_from_slice(&256u32.to_le_bytes());
    input.extend_from_slice(b"hello");
    input.extend_from_slice(b" world");
    let expected = format!("{:x}.png", md5::compute(&input));
    assert_eq!(String::from_utf8(key).unwrap(), expected);
}

#[test]
fn key_of_empty_request_matches_known_digest() {
    let key = cache_key(b"", 0, &Vec::new());
    // The digest of the four zero bytes of the size field alone.
    let expected = format!("{:x}.png", md5::compute([0u8, 0, 0, 0]));
    assert_eq!(String::from_utf8(key).unwrap(), expected);
}

#[test]
fn windows_stop_at_the_first_offset_past_the_file() {
    assert_eq!(sample_windows(0), vec![]);
    assert_eq!(sample_windows(100), vec![]);
    assert_eq!(sample_windows(300), vec![(256, 300)]);
    assert_eq!(sample_windows(5000), vec![(256, 1280), (1024, 2048), (4096, 5000)]);
}

#[test]
fn windows_grow_exponentially_for_large_files() {
    let flen: u64 = 2_000_000_000;
    let got = sample_windows(flen);
    let offsets: Vec<u64> = got.iter().map(|w| w.0).collect();
    assert_eq!(
        offsets,
        vec![
            256, 1024, 4096, 16384, 65536, 262144, 1048576, 4194304, 16777216, 67108864,
            268435456, 1073741824
        ]
    );
    for w in &got {
        assert_eq!(w.1, w.0 + 1024);
    }
}

#[test]
fn files_differing_only_outside_the_windows_share_a_key() {
    // Two 2000-byte files that differ only in the first 256 bytes, which
    // no window samples.
    let mut f1 = vec![9u8; 2000];
    let mut f2 = vec![9u8; 2000];
    f1[100] = 1;
    f2[100] = 2;

    let cut = |f: &Vec<u8>| -> Vec<Vec<u8>> {
        sample_windows(f.len() as u64)
            .iter()
            .map(|w| f[w.0 as usize..w.1 as usize].to_vec())
            .collect()
    };
    let k1 = cache_key(b"epub", 128, &cut(&f1));
    let k2 = cache_key(b"epub", 128, &cut(&f2));
    assert_eq!(k1, k2);
}

#[test]
fn sampled_content_extension_and_size_all_reach_the_key() {
    let w1 = vec![b"window".to_vec()];
    let w2 = vec![b"deltas".to_vec()];
    let base = cache_key(b"epub", 128, &w1);
    assert_ne!(base, cache_key(b"epub", 128, &w2));
    assert_ne!(base, cache_key(b"mobi", 128, &w1));
    assert_ne!(base, cache_key(b"epub", 129, &w1));
    assert!(String::from_utf8(base).unwrap().ends_with(".png"));
}
