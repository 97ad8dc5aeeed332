//! Fingerprinting and path handling.

use md2db::media::{detect_extension, normalize_path, process_image, ImageRef};

#[test]
fn test_detect_png() {
    let png_header = [0x89, 0x50, 0x4E, 0x47, 0x0D, 0x0A, 0x1A, 0x0A];
    assert_eq!(detect_extension(&png_header), "png");
}

#[test]
fn test_detect_jpg() {
    let jpg_header = [0xFF, 0xD8, 0xFF, 0xE0, 0x00, 0x10, 0x4A, 0x46];
    assert_eq!(detect_extension(&jpg_header), "jpg");
}

#[test]
fn test_normalize_path() {
    let normalized = normalize_path("images/photo.png");
    assert_eq!(normalized, "images/photo.png");
}

#[test]
fn test_normalize_path_drops_cur_dir() {
    assert_eq!(normalize_path("./a/./b.png"), "a/b.png");
    assert_eq!(normalize_path("a//b.png"), "a/b.png");
}

#[test]
fn test_detect_gif_webp_bmp() {
    assert_eq!(detect_extension(&[0x47, 0x49, 0x46, 0x38, 0x39, 0x61, 0x00, 0x00]), "gif");
    assert_eq!(detect_extension(&[0x52, 0x49, 0x46, 0x46, 0x00, 0x00, 0x00, 0x00]), "webp");
    assert_eq!(detect_extension(&[0x42, 0x4D, 0x00, 0x00, 0x00, 0x00, 0x00, 0x00]), "bmp");
}

#[test]
fn test_detect_short_input_is_binary() {
    // A 3-byte input yields the generic binary tag, and no failure.
    assert_eq!(detect_extension(&[0x89, 0x50, 0x4E]), "bin");
}

#[test]
fn test_detect_unknown_signature_is_binary() {
    assert_eq!(detect_extension(&[1, 2, 3, 4, 5, 6, 7, 8]), "bin");
}

#[test]
fn test_fingerprint_known_digest() {
    // SHA-256 of the empty input, as lower-case hex.
    let ImageRef::Local { hash, original_path } = process_image(&[]);
    assert_eq!(hash, "e3b0c44298fc1c149afbf4c8996fb92427ae41e4649b934ca495991b7852b855");
    assert_eq!(original_path, "e3b0c44298fc1c149afbf4c8996fb92427ae41e4649b934ca495991b7852b855.bin");
}

#[test]
fn test_fingerprint_abc_digest() {
    let ImageRef::Local { hash, .. } = process_image(b"abc");
    assert_eq!(hash, "ba7816bf8f01cfea414140de5dae2223b00361a396177a9cb410ff61f20015ad");
}

#[test]
fn test_fingerprint_idempotent() {
    // Two runs over the same bytes yield the identical hash and extension.
    let data = [0x89, 0x50, 0x4E, 0x47, 0x0D, 0x0A, 0x1A, 0x0A, 0x01, 0x02];
    let ImageRef::Local { hash: h1, original_path: p1 } = process_image(&data);
    let ImageRef::Local { hash: h2, original_path: p2 } = process_image(&data);
    assert_eq!(h1, h2);
    assert_eq!(p1, p2);
    assert!(p1.ends_with(".png"));
}
