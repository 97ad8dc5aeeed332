//! Archive entry classification, filtering and processing.

use md2db::zip::{ZipEntry, ZipProcessor};

fn build_zip(entries: &[(&str, &[u8])]) -> Vec<u8> {
    let mut buf = std::io::Cursor::new(Vec::new());
    let mut writer = zip::ZipWriter::new(&mut buf);
    let options = zip::write::SimpleFileOptions::default();
    for (name, data) in entries {
        writer.start_file(*name, options).unwrap();
        std::io::Write::write_all(&mut writer, data).unwrap();
    }
    writer.finish().unwrap();
    buf.into_inner()
}

#[test]
fn test_zip_entry_detection() {
    let md_entry = ZipEntry::new("test.md".to_string(), b"# Test".to_vec());
    assert!(md_entry.is_markdown);
    assert!(!md_entry.is_image);

    let png_entry = ZipEntry::new("image.png".to_string(), vec![0x89, 0x50, 0x4E, 0x47]);
    assert!(!png_entry.is_markdown);
    assert!(png_entry.is_image);

    let txt_entry = ZipEntry::new("readme.txt".to_string(), b"Hello".to_vec());
    assert!(!txt_entry.is_markdown);
    assert!(!txt_entry.is_image);
}

#[test]
fn test_zip_entry_as_string() {
    let entry = ZipEntry::new("test.md".to_string(), b"Hello, world!".to_vec());
    let s = entry.as_string().unwrap();
    assert_eq!(s, "Hello, world!");
}

#[test]
fn test_zip_entry_as_string_invalid_utf8() {
    let entry = ZipEntry::new("test.md".to_string(), vec![0xFF, 0xFE, 0x00]);
    let e = entry.as_string().unwrap_err();
    assert_eq!(e.message, "Invalid UTF-8 in file test.md");
}

#[test]
fn test_zip_entry_detection_case_insensitive() {
    assert!(ZipEntry::new("NOTES.MD".to_string(), Vec::new()).is_markdown);
    assert!(ZipEntry::new("photo.JPeG".to_string(), Vec::new()).is_image);
}

#[test]
fn test_archive_filtering() {
    // Of these five members only notes.md is a document and only diagram.png
    // is an image; the directory-marker and metadata entries and the plain
    // text file are absent from both partitions.
    let data = build_zip(&[
        ("notes.md", b"# One question\n\n* A. x\n* B. y\n".as_slice()),
        ("__MACOSX/notes.md", b"# Hidden\n\n* A. x\n".as_slice()),
        ("._notes.md", b"# Hidden too\n\n* A. x\n".as_slice()),
        ("diagram.png", &[0x89, 0x50, 0x4E, 0x47, 0x0D, 0x0A, 0x1A, 0x0A, 1, 2]),
        ("readme.txt", b"hello".as_slice()),
    ]);
    let processor = ZipProcessor::new();
    let result = processor.process_zip(data).unwrap();
    assert_eq!(result.questions.len(), 1);
    assert_eq!(result.questions[0].stem, "One question");
    assert_eq!(result.images.len(), 1);
    assert!(result.warnings.is_empty());
}

#[test]
fn test_archive_image_deduplication() {
    // Identical bytes under different paths collapse to one map entry.
    let png = [0x89u8, 0x50, 0x4E, 0x47, 0x0D, 0x0A, 0x1A, 0x0A, 9, 9];
    let data = build_zip(&[
        ("a/one.png", png.as_slice()),
        ("b/two.png", png.as_slice()),
        ("c/other.png", &[0x89, 0x50, 0x4E, 0x47, 0x0D, 0x0A, 0x1A, 0x0A, 7]),
    ]);
    let processor = ZipProcessor::new();
    let result = processor.process_zip(data).unwrap();
    assert_eq!(result.images.len(), 2);
    let keys: Vec<&String> = result.images.iter().map(|p| &p.0).collect();
    assert_ne!(keys[0], keys[1]);
}

#[test]
fn test_archive_document_failure_isolated() {
    // A document that is not valid UTF-8 yields one warning naming it; its
    // siblings still contribute their questions.
    let data = build_zip(&[
        ("doc1.md", b"# Q1\n\n* A. x\n".as_slice()),
        ("doc2.md", &[0xFF, 0xFE, 0x00, 0x01]),
        ("doc3.md", b"# Q3\n\n* B. y\n".as_slice()),
    ]);
    let processor = ZipProcessor::new();
    let result = processor.process_zip(data).unwrap();
    assert_eq!(result.questions.len(), 2);
    assert_eq!(result.warnings.len(), 1);
    assert!(result.warnings[0].contains("doc2.md"));
}

#[test]
fn test_skips_entry_rules() {
    assert!(md2db::zip::skips_entry("dir/"));
    assert!(md2db::zip::skips_entry("__MACOSX/notes.md"));
    assert!(md2db::zip::skips_entry("._notes.md"));
    assert!(md2db::zip::skips_entry("a/._hidden.md"));
    assert!(!md2db::zip::skips_entry("notes.md"));
    assert!(!md2db::zip::skips_entry("a/notes.md"));
}

#[test]
fn test_corrupt_archive_fails_whole_call() {
    let processor = ZipProcessor::new();
    let result = processor.process_zip(vec![1, 2, 3, 4, 5]);
    assert!(result.is_err());
}

#[test]
fn test_parse_markdown_zip_entry_point() {
    let data = build_zip(&[("q.md", b"# Entry\n\n* A. 1\n* B. 2\n".as_slice())]);
    let result = md2db::parse_markdown_zip(&data).unwrap();
    assert_eq!(result.questions.len(), 1);
    assert_eq!(result.questions[0].options.len(), 2);
}
