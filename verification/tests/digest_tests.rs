use aperture::digest::{compute_content_key, gen_sha_256_hash};

#[test]
fn hash_of_empty_string_matches_known_vector() {
    let hash = gen_sha_256_hash(&String::new());
    assert_eq!(hash, "e3b0c44298fc1c149afbf4c8996fb92427ae41e4649b934ca495991b7852b855");
}

#[test]
fn hash_of_secret_matches_known_vector() {
    let hash = gen_sha_256_hash(&"s3cr3t".to_string());
    assert_eq!(hash, "4e738ca5563c06cfd0018299933d58db1dd8bf97f6973dc99bf6cdc64b5550bd");
}

#[test]
fn hash_is_sixty_four_lowercase_hex_chars() {
    let hash = gen_sha_256_hash(&"abc".to_string());
    assert_eq!(hash.len(), 64);
    assert!(hash.chars().all(|c| c.is_ascii_hexdigit() && !c.is_ascii_uppercase()));
    assert_eq!(hash, "ba7816bf8f01cfea414140de5dae2223b00361a396177a9cb410ff61f20015ad");
}

#[test]
fn content_key_concatenates_path_then_name() {
    // The key of ("", "notes.txt") is the digest of "notes.txt" alone.
    let key = compute_content_key("", "notes.txt");
    assert_eq!(key, "e39538e7f27a7bf579cd9b85a103c0f0b86b60b788534295538d0301a9c5dce6");
    // ("a/b", "c.txt") concatenates to "a/bc.txt".
    let key2 = compute_content_key("a/b", "c.txt");
    assert_eq!(key2, "2a12db573b80afdd19098812954aac4f01f2a8a1290fbe15ed4c8cef617d4309");
}

#[test]
fn content_key_is_deterministic_across_calls() {
    let first = compute_content_key("photos", "img.png");
    let second = compute_content_key("photos", "img.png");
    assert_eq!(first, second);
    // The fixed expected value pins the result across processes as well.
    assert_eq!(first, "f99bbb8e70e23282da2f14b993d4cc12c03a920103fe02d46dbb07d36393c0ca");
}

#[test]
fn content_key_differs_for_different_paths() {
    let by_name = compute_content_key("photos", "img.png");
    let by_path = compute_content_key("photos2", "img.png");
    let by_file = compute_content_key("photos", "img2.png");
    assert_ne!(by_name, by_path);
    assert_ne!(by_name, by_file);
}
