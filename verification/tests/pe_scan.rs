//! End-to-end scan over a synthetic 64-bit PE image.

use tauri_dumper::Dumper;
use tauri_dumper::binary::AnyParser;
use tauri_dumper::binary::BinaryParser;
use tauri_dumper::binary::DumpError;

fn le16(v: &mut Vec<u8>, x: u16) {
    v.extend_from_slice(&x.to_le_bytes());
}

fn le32(v: &mut Vec<u8>, x: u32) {
    v.extend_from_slice(&x.to_le_bytes());
}

fn le64(v: &mut Vec<u8>, x: u64) {
    v.extend_from_slice(&x.to_le_bytes());
}

fn compress(data: &[u8]) -> Vec<u8> {
    let mut out = Vec::new();
    {
        let mut w = brotli::CompressorWriter::new(&mut out, 4096, 5, 22);
        std::io::Write::write_all(&mut w, data).unwrap();
    }
    out
}

/// A 64-bit PE image whose `.rdata` section, mapped at RVA 0x1000 and stored
/// at file offset 0x200, holds one asset header, the asset name and the
/// compressed payload.
fn build_pe_one_asset() -> Vec<u8> {
    let image_base: u64 = 0x140000000;
    let payload = compress(b"hello");
    let plen = payload.len() as u64;
    assert!(payload.len() <= 0xA0);
    let mut v = Vec::new();
    // DOS header: magic and the offset of the NT headers
    v.extend_from_slice(b"MZ");
    v.resize(0x3C, 0);
    le32(&mut v, 0x40);
    v.resize(0x40, 0);
    // NT headers: signature and COFF file header
    v.extend_from_slice(b"PE\0\0");
    le16(&mut v, 0x8664);
    le16(&mut v, 1);
    le32(&mut v, 0);
    le32(&mut v, 0);
    le32(&mut v, 0);
    le16(&mut v, 112);
    le16(&mut v, 0x0022);
    // optional header, PE32+, no data directories
    le16(&mut v, 0x20B);
    v.push(14);
    v.push(0);
    le32(&mut v, 0);
    le32(&mut v, 0x200);
    le32(&mut v, 0);
    le32(&mut v, 0x1000);
    le32(&mut v, 0x1000);
    le64(&mut v, image_base);
    le32(&mut v, 0x1000);
    le32(&mut v, 0x200);
    le16(&mut v, 6);
    le16(&mut v, 0);
    le16(&mut v, 0);
    le16(&mut v, 0);
    le16(&mut v, 6);
    le16(&mut v, 0);
    le32(&mut v, 0);
    le32(&mut v, 0x2000);
    le32(&mut v, 0x200);
    le32(&mut v, 0);
    le16(&mut v, 3);
    le16(&mut v, 0);
    le64(&mut v, 0x100000);
    le64(&mut v, 0x1000);
    le64(&mut v, 0x100000);
    le64(&mut v, 0x1000);
    le32(&mut v, 0);
    le32(&mut v, 0);
    // section table: one .rdata entry, read-only initialized data
    v.extend_from_slice(b".rdata\0\0");
    le32(&mut v, 0x100);
    le32(&mut v, 0x1000);
    le32(&mut v, 0x100);
    le32(&mut v, 0x200);
    le32(&mut v, 0);
    le32(&mut v, 0);
    le16(&mut v, 0);
    le16(&mut v, 0);
    le32(&mut v, 0x40000040);
    // .rdata content: the header record, then the name, then the payload
    v.resize(0x200, 0);
    le64(&mut v, image_base + 0x1040);
    le64(&mut v, 6);
    le64(&mut v, image_base + 0x1050);
    le64(&mut v, plen);
    v.resize(0x240, 0);
    v.extend_from_slice(b"/p.txt");
    v.resize(0x250, 0);
    v.extend_from_slice(&payload);
    v.resize(0x300, 0);
    v
}

#[test]
fn pe_scan_finds_the_asset_in_rdata() {
    let data = build_pe_one_asset();
    let dumper = Dumper::new(data).unwrap();
    match &dumper.parser {
        AnyParser::Pe(p) => {
            assert_eq!(p.sections.len(), 1);
            assert_eq!(p.sections[0].virtual_address, 0x140001000);
            assert_eq!(p.sections[0].file_offset, 0x200);
            assert_eq!(p.resolve_pointer(0x140001040).unwrap(), 0x240);
            assert_eq!(p.resolve_pointer(0x140000FFF).err().unwrap(), DumpError::Pointer);
        },
        AnyParser::MachO(_) => panic!("expected a PE parser"),
    }
    let assets = dumper.scan_assets().unwrap();
    assert_eq!(assets.len(), 1);
    assert_eq!(assets[0].name, "/p.txt");
    assert_eq!(dumper.decompress_asset(&assets[0]).unwrap(), b"hello".to_vec());
}
