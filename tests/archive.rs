use gar::{merge_entries, unzip_and_concatenate, GarError};
use std::io::{Cursor, Write};
use zip::write::FileOptions;
use zip::{CompressionMethod, ZipWriter};

fn bundle(entries: &[(&str, &[u8])]) -> Vec<u8> {
    let mut w = ZipWriter::new(Cursor::new(Vec::new()));
    for (name, data) in entries {
        let opts = FileOptions::default().compression_method(CompressionMethod::Stored);
        w.start_file(*name, opts).unwrap();
        w.write_all(data).unwrap();
    }
    w.finish().unwrap().into_inner()
}

fn pairs(entries: &[(&str, &str)]) -> Vec<(String, String)> {
    entries.iter().map(|(n, t)| (n.to_string(), t.to_string())).collect()
}

#[test]
fn roots_come_before_nested_entries() {
    let bytes = bundle(&[("b.txt", b"B"), ("sub/a.txt", b"nested"), ("a.txt", b"A")]);
    let out = unzip_and_concatenate(bytes).unwrap();
    assert_eq!(out, "BA\n--------------\nsub/a.txt\n--------------\nnested");
}

#[test]
fn nested_position_does_not_matter() {
    let first = bundle(&[("sub/a.txt", b"nested"), ("b.txt", b"B"), ("a.txt", b"A")]);
    let last = bundle(&[("b.txt", b"B"), ("a.txt", b"A"), ("sub/a.txt", b"nested")]);
    let expected = "BA\n--------------\nsub/a.txt\n--------------\nnested";
    assert_eq!(unzip_and_concatenate(first).unwrap(), expected);
    assert_eq!(unzip_and_concatenate(last).unwrap(), expected);
}

#[test]
fn nested_entry_delimiter_is_exact() {
    let bytes = bundle(&[("logs/step1.txt", b"hello")]);
    let out = unzip_and_concatenate(bytes).unwrap();
    assert!(out.contains("\n--------------\nlogs/step1.txt\n--------------\nhello"));
    assert_eq!(out, "\n--------------\nlogs/step1.txt\n--------------\nhello");
}

#[test]
fn merge_of_pairs_matches_archive_rule() {
    let es = pairs(&[("b.txt", "B"), ("sub/a.txt", "x"), ("a.txt", "A"), ("d/e/f", "y")]);
    assert_eq!(
        merge_entries(&es),
        "BA\n--------------\nsub/a.txt\n--------------\nx\n--------------\nd/e/f\n--------------\ny"
    );
}

#[test]
fn empty_archive_gives_empty_text() {
    let bytes = bundle(&[]);
    assert_eq!(unzip_and_concatenate(bytes).unwrap(), "");
    assert_eq!(merge_entries(&Vec::new()), "");
}

#[test]
fn non_text_entry_fails_the_merge() {
    let bytes = bundle(&[("a.txt", b"fine"), ("sub/b.bin", &[0xff, 0xfe, 0x00])]);
    assert!(matches!(unzip_and_concatenate(bytes), Err(GarError::ArchiveDecodeFailed)));
}

#[test]
fn garbage_is_not_an_archive() {
    let r = unzip_and_concatenate(b"not a zip at all".to_vec());
    assert!(matches!(r, Err(GarError::ArchiveDecodeFailed)));
}

#[test]
fn unencrypted_entry_with_aes_field_is_an_error() {
    let mut w = ZipWriter::new(Cursor::new(Vec::new()));
    let opts = FileOptions::default().compression_method(CompressionMethod::Stored);
    w.start_file_with_extra_data("a.txt", opts).unwrap();
    w.end_local_start_central_extra_data().unwrap();
    w.write_all(&0xbeefu16.to_le_bytes()).unwrap();
    w.write_all(&7u16.to_le_bytes()).unwrap();
    w.write_all(&[0x02, 0x00, 0x41, 0x45, 0x03, 0x00, 0x00]).unwrap();
    w.end_extra_data().unwrap();
    w.write_all(b"hello").unwrap();
    let mut bytes = w.finish().unwrap().into_inner();
    let at = bytes.windows(4).position(|t| t == [0xef, 0xbe, 0x07, 0x00]).unwrap();
    bytes[at] = 0x01;
    bytes[at + 1] = 0x99;
    assert!(matches!(unzip_and_concatenate(bytes), Err(GarError::ArchiveDecodeFailed)));
}

#[test]
fn empty_bytes_are_not_an_archive() {
    assert!(matches!(unzip_and_concatenate(Vec::new()), Err(GarError::ArchiveDecodeFailed)));
}

#[test]
fn bad_entry_anywhere_fails_without_partial_text() {
    let root_bad = bundle(&[("a.txt", &[0xc3, 0x28]), ("sub/b.txt", b"fine")]);
    assert!(matches!(unzip_and_concatenate(root_bad), Err(GarError::ArchiveDecodeFailed)));
    let last_bad = bundle(&[("a.txt", b"fine"), ("b.txt", b"also"), ("c.txt", &[0x80])]);
    assert!(matches!(unzip_and_concatenate(last_bad), Err(GarError::ArchiveDecodeFailed)));
}
