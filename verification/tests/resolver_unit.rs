//! Unit tests of the pointer resolvers, the header validation and the
//! decompressor, on directly constructed parsers.

use tauri_dumper::Asset;
use tauri_dumper::Dumper;
use tauri_dumper::binary::AnyParser;
use tauri_dumper::binary::BinaryParser;
use tauri_dumper::binary::DumpError;
use tauri_dumper::binary::SectionInfo;
use tauri_dumper::binary::macho::FixupFormat;
use tauri_dumper::binary::macho::MachOParser;
use tauri_dumper::binary::pe::PeParser;

fn sec(virtual_address: u64, file_offset: u64, size: u64) -> SectionInfo {
    SectionInfo { virtual_address, file_offset, size }
}

fn compress(data: &[u8]) -> Vec<u8> {
    let mut out = Vec::new();
    {
        let mut w = brotli::CompressorWriter::new(&mut out, 4096, 5, 22);
        std::io::Write::write_all(&mut w, data).unwrap();
    }
    out
}

#[test]
fn pe_resolves_inside_rdata() {
    let p = PeParser::new(vec![sec(0x2000, 0x400, 0x100)]).unwrap();
    assert_eq!(p.resolve_pointer(0x2000).unwrap(), 0x400);
    assert_eq!(p.resolve_pointer(0x2010).unwrap(), 0x410);
    assert_eq!(p.resolve_pointer(0x20FF).unwrap(), 0x4FF);
}

#[test]
fn pe_rejects_outside_rdata() {
    let p = PeParser::new(vec![sec(0x2000, 0x400, 0x100)]).unwrap();
    assert_eq!(p.resolve_pointer(0x1FFF).err().unwrap(), DumpError::Pointer);
    assert_eq!(p.resolve_pointer(0x2100).err().unwrap(), DumpError::Pointer);
    assert_eq!(p.resolve_pointer(0).err().unwrap(), DumpError::Pointer);
    assert_eq!(p.resolve_pointer(u64::MAX).err().unwrap(), DumpError::Pointer);
}

#[test]
fn pe_requires_an_rdata_section() {
    assert_eq!(PeParser::new(Vec::new()).err().unwrap(), DumpError::Format);
}

#[test]
fn pe_requires_exactly_one_nonempty_rdata() {
    let two = vec![sec(0x2000, 0x400, 0x100), sec(0x3000, 0x500, 0x100)];
    assert_eq!(PeParser::new(two).err().unwrap(), DumpError::Format);
    let empty = vec![sec(0x2000, 0x400, 0)];
    assert_eq!(PeParser::new(empty).err().unwrap(), DumpError::Format);
}

#[test]
fn chained_decode_adds_masked_offset_to_base() {
    let p = MachOParser {
        sections: Vec::new(),
        fixup_format: FixupFormat::ChainedFixups,
        image_base: 0x100000000,
    };
    // the low 43 bits carry the offset; everything above is metadata
    assert_eq!(p.decode_pointer(0x8000000000001234), 0x100001234);
    assert_eq!(p.decode_pointer(0x1234), 0x100001234);
    assert_eq!(p.decode_pointer(0xFFF8000000000000), 0x100000000);
}

#[test]
fn traditional_decode_is_identity() {
    let p = MachOParser {
        sections: Vec::new(),
        fixup_format: FixupFormat::Traditional,
        image_base: 0x100000000,
    };
    assert_eq!(p.decode_pointer(0x100001234), 0x100001234);
    assert_eq!(p.decode_pointer(0xFFF8000000000000), 0xFFF8000000000000);
}

#[test]
fn macho_resolution_translates_against_sections() {
    let p = MachOParser {
        sections: vec![sec(0x1000, 0x100, 0x10), sec(0x4000, 0x800, 0x100)],
        fixup_format: FixupFormat::Traditional,
        image_base: 0x100000000,
    };
    assert_eq!(p.va_to_file_offset(0x1000).unwrap(), 0x100);
    assert_eq!(p.va_to_file_offset(0x100F).unwrap(), 0x10F);
    assert_eq!(p.va_to_file_offset(0x4020).unwrap(), 0x820);
    assert_eq!(p.va_to_file_offset(0x1010).err().unwrap(), DumpError::Pointer);
    assert_eq!(p.va_to_file_offset(0x3FFF).err().unwrap(), DumpError::Pointer);
    assert_eq!(p.va_to_file_offset(0x4100).err().unwrap(), DumpError::Pointer);
}

#[test]
fn macho_resolution_uses_first_matching_section() {
    let p = MachOParser {
        sections: vec![sec(0x1000, 0x100, 0x100), sec(0x1000, 0x900, 0x100)],
        fixup_format: FixupFormat::Traditional,
        image_base: 0x100000000,
    };
    assert_eq!(p.va_to_file_offset(0x1040).unwrap(), 0x140);
}

fn le64(v: &mut Vec<u8>, x: u64) {
    v.extend_from_slice(&x.to_le_bytes());
}

/// A little file whose single section maps virtual address 0x1000 to file
/// offset 0: a 32-byte header at offset 0, the name at 0x40, data at 0x48.
fn fixture(name: &[u8], name_len: u64, payload: &[u8], data_ptr: u64) -> Dumper {
    let mut data = Vec::new();
    le64(&mut data, 0x1040);
    le64(&mut data, name_len);
    le64(&mut data, data_ptr);
    le64(&mut data, payload.len() as u64);
    data.resize(0x40, 0);
    data.extend_from_slice(name);
    data.resize(0x48, 0);
    data.extend_from_slice(payload);
    let len = data.len() as u64;
    let parser = AnyParser::MachO(MachOParser {
        sections: vec![sec(0x1000, 0, len)],
        fixup_format: FixupFormat::Traditional,
        image_base: 0x100000000,
    });
    Dumper { data, parser }
}

#[test]
fn candidate_with_valid_header_is_accepted() {
    let d = fixture(b"/n", 2, &compress(b"hello"), 0x1048);
    let a = d.try_parse_asset(0).unwrap();
    assert_eq!(a.name, "/n");
    assert_eq!(d.decompress_asset(&a).unwrap(), b"hello".to_vec());
}

#[test]
fn candidate_with_unresolvable_pointer_is_rejected() {
    let d = fixture(b"/n", 2, &compress(b"hello"), 0x9999);
    assert_eq!(d.try_parse_asset(0).err().unwrap(), DumpError::Pointer);
}

#[test]
fn candidate_without_leading_separator_is_rejected() {
    let d = fixture(b"xn", 2, &compress(b"hello"), 0x1048);
    assert_eq!(d.try_parse_asset(0).err().unwrap(), DumpError::Validation);
}

#[test]
fn candidate_with_non_ascii_name_is_rejected() {
    let d = fixture(b"/\xC3\xA9", 3, &compress(b"hello"), 0x1048);
    assert_eq!(d.try_parse_asset(0).err().unwrap(), DumpError::Validation);
}

#[test]
fn candidate_with_invalid_codec_stream_is_rejected() {
    let d = fixture(b"/n", 2, &[0xFF, 0xFE, 0xFD, 0xFC, 0xFB], 0x1048);
    assert_eq!(d.try_parse_asset(0).err().unwrap(), DumpError::Validation);
}

#[test]
fn candidate_with_region_beyond_file_is_rejected() {
    // name_len runs past the end of the file
    let d = fixture(b"/n", 0x100, &compress(b"hello"), 0x1048);
    assert_eq!(d.try_parse_asset(0).err().unwrap(), DumpError::Bounds);
}

#[test]
fn candidate_beyond_window_is_rejected() {
    let d = fixture(b"/n", 2, &compress(b"hello"), 0x1048);
    assert_eq!(d.try_parse_asset(0x10000).err().unwrap(), DumpError::Bounds);
}

#[test]
fn candidate_with_zero_length_name_keeps_empty_name() {
    // The separator check reads the byte at the resolved name offset even
    // when the stored name length is zero; the asset then carries an empty
    // name.
    let d = fixture(b"/n", 0, &compress(b"hello"), 0x1048);
    let a = d.try_parse_asset(0).unwrap();
    assert_eq!(a.name, "");
}

#[test]
fn decompress_rejects_invalid_stream() {
    let d = fixture(b"/n", 2, &compress(b"hello"), 0x1048);
    let a = Asset { name: "/x".to_string(), data: vec![1, 2, 3] };
    assert_eq!(d.decompress_asset(&a).err().unwrap(), DumpError::Decode);
}

#[test]
fn decompress_round_trips_compressed_payload() {
    let d = fixture(b"/n", 2, &compress(b"hello"), 0x1048);
    let a = Asset { name: "/x".to_string(), data: compress(b"some longer payload 123") };
    assert_eq!(d.decompress_asset(&a).unwrap(), b"some longer payload 123".to_vec());
}
