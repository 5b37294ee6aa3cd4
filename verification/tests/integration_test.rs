//! Format-detection edge cases: inputs that must be rejected before any
//! scanning happens.

use tauri_dumper::Dumper;
use tauri_dumper::binary::DumpError;

#[test]
fn reject_invalid_binary() {
    let data = b"not a valid binary".to_vec();
    assert!(Dumper::new(data).is_err());
}

#[test]
fn reject_empty_file() {
    let data = Vec::new();
    assert!(Dumper::new(data).is_err());
}

#[test]
fn reject_unrecognized_bytes_with_format_error() {
    // A file of arbitrary bytes with no recognizable header: format
    // detection fails, and the scanner never runs.
    let mut data = Vec::new();
    let mut x: u32 = 0x12345678;
    for _ in 0..256 {
        x = x.wrapping_mul(1664525).wrapping_add(1013904223);
        data.push((x >> 24) as u8);
    }
    match Dumper::new(data) {
        Err(e) => assert_eq!(e, DumpError::Format),
        Ok(_) => panic!("arbitrary bytes must not be accepted"),
    }
}
