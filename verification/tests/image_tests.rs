use aperture::image::{generate_blurhash, is_image_file};

#[test]
fn recognizes_image_extensions() {
    assert!(is_image_file("photo.jpg"));
    assert!(is_image_file("photo.jpeg"));
    assert!(is_image_file("photo.png"));
    assert!(is_image_file("album/photo.png"));
}

#[test]
fn extension_check_is_case_insensitive() {
    assert!(is_image_file("photo.JPG"));
    assert!(is_image_file("photo.JpEg"));
    assert!(is_image_file("photo.PNG"));
}

#[test]
fn rejects_non_image_extensions() {
    assert!(!is_image_file("notes.txt"));
    assert!(!is_image_file("archive.tar.gz"));
    assert!(!is_image_file("binary"));
    assert!(!is_image_file(""));
}

#[test]
fn hidden_files_and_bare_dots_have_no_extension() {
    assert!(!is_image_file(".png"));
    assert!(!is_image_file("dir/.png"));
    assert!(!is_image_file("photo."));
}

#[test]
fn dot_in_directory_does_not_count() {
    assert!(!is_image_file("album.png/photo"));
    assert!(is_image_file("album.d/photo.png"));
}

#[test]
fn blank_extension_counts_as_image() {
    // The accepted extension list of the server includes a lone blank.
    assert!(is_image_file("scan. "));
}

#[test]
fn blurhash_absent_for_short_buffers() {
    assert_eq!(generate_blurhash(&Vec::new()), None);
    assert_eq!(generate_blurhash(&vec![7u8; 4095]), None);
}

#[test]
fn blurhash_matches_direct_encoding() {
    let mut pixels = vec![0u8; 4096];
    for (i, p) in pixels.iter_mut().enumerate() {
        *p = (i % 251) as u8;
    }
    let through_library = generate_blurhash(&pixels).expect("full grid must produce a hash");
    let direct = blurhash::encode(4, 3, 32, 32, &pixels).expect("encoding must succeed");
    assert_eq!(through_library, direct);
    assert_eq!(through_library.len(), 28);
}

#[test]
fn blurhash_depends_on_pixels() {
    let dark = vec![0u8; 4096];
    let light = vec![200u8; 4096];
    let dark_hash = generate_blurhash(&dark).unwrap();
    let light_hash = generate_blurhash(&light).unwrap();
    assert_ne!(dark_hash, light_hash);
}
