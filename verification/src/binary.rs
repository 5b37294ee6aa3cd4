//! Binary format parsing abstractions.
//!
//! This module provides a unified interface for parsing different binary formats
//! (PE, Mach-O) with format-specific pointer resolution strategies.

pub mod macho;
pub mod pe;
pub mod raw;

use vstd::prelude::*;

use crate::binary::macho::MachOParser;
use crate::binary::macho::spec_fixup_format;
use crate::binary::macho::spec_image_base;
use crate::binary::pe::PeParser;
use crate::binary::raw::RawSection;
use crate::binary::raw::detect_macho;
use crate::binary::raw::image_sections;
use crate::binary::raw::image_sections_of;
use crate::binary::raw::macho_commands_of;
use crate::binary::raw::macho_format_of;
use crate::binary::raw::sec_model;

verus! {

/// Errors that can arise while detecting a format, resolving pointers,
/// validating candidate headers, or decompressing asset data.
#[derive(Debug, Clone, Copy, PartialEq, Eq, Structural)]
pub enum DumpError {
    /// Unrecognized container format, or a required section is missing.
    Format,
    /// A raw pointer does not resolve into any known section.
    Pointer,
    /// A resolved region exceeds the file bounds.
    Bounds,
    /// A content check (leading separator, ASCII, codec probe) failed.
    Validation,
    /// The configured scan window exceeds the file length.
    ScanRange,
    /// Decompression of an asset's data failed.
    Decode,
}

/// Information about a section in the binary.
#[derive(Debug, Clone)]
pub struct SectionInfo {
    pub virtual_address: u64,
    pub file_offset: u64,
    pub size: u64,
}

/// Defines the scan range for asset searching.
#[derive(Debug, Clone, Copy)]
pub struct ScanRange {
    pub start: usize,
    pub length: usize,
}

/// Whether virtual address `va` lies inside section `s`, that is in
/// `[s.virtual_address, s.virtual_address + s.size)`.
pub open spec fn sec_contains(s: SectionInfo, va: u64) -> bool {
    s.virtual_address <= va && (va as int) < s.virtual_address + s.size
}

/// The file offset that a virtual address inside section `s` translates to,
/// as an unbounded integer.
pub open spec fn sec_translate(s: SectionInfo, va: u64) -> int {
    va - s.virtual_address + s.file_offset
}

/// Trait for binary format-specific parsing operations.
///
/// Different binary formats (PE, Mach-O) have different ways of storing
/// and resolving pointers. This trait abstracts those differences.
pub trait BinaryParser: Sized {
    /// The file offset, if any, that a raw in-binary pointer resolves to.
    spec fn spec_resolve(&self, ptr: u64) -> Option<u64>;

    /// The scan window, if any, in which asset headers are searched.
    spec fn spec_scan_range(&self) -> Option<ScanRange>;

    /// Converts a raw pointer value from the binary to a file offset.
    ///
    /// This handles format-specific pointer encoding (e.g., Mach-O chained fixups).
    fn resolve_pointer(&self, ptr: u64) -> (r: Result<u64, DumpError>)
        ensures
            r == (match self.spec_resolve(ptr) {
                Some(off) => Result::<u64, DumpError>::Ok(off),
                None => Result::<u64, DumpError>::Err(DumpError::Pointer),
            }),
    ;

    /// Returns the scan range for searching assets in the binary.
    fn scan_range(&self) -> (r: Result<ScanRange, DumpError>)
        ensures
            r == (match self.spec_scan_range() {
                Some(sr) => Result::<ScanRange, DumpError>::Ok(sr),
                None => Result::<ScanRange, DumpError>::Err(DumpError::Format),
            }),
    ;
}

/// The name of the PE read-only data section: `.rdata`.
pub open spec fn rdata_section_name() -> Seq<u8> {
    seq![0x2Eu8, 0x72u8, 0x64u8, 0x61u8, 0x74u8, 0x61u8]
}

/// The name of the Mach-O constant sections: `__const`.
pub open spec fn const_section_name() -> Seq<u8> {
    seq![0x5Fu8, 0x5Fu8, 0x63u8, 0x6Fu8, 0x6Eu8, 0x73u8, 0x74u8]
}

/// The Mach-O `__TEXT` segment name as sections report it.
pub open spec fn segment_text_name() -> Seq<u8> {
    seq![0x5Fu8, 0x5Fu8, 0x54u8, 0x45u8, 0x58u8, 0x54u8]
}

/// The Mach-O `__DATA_CONST` segment name.
pub open spec fn segment_data_const_name() -> Seq<u8> {
    seq![0x5Fu8, 0x5Fu8, 0x44u8, 0x41u8, 0x54u8, 0x41u8, 0x5Fu8, 0x43u8, 0x4Fu8, 0x4Eu8, 0x53u8, 0x54u8]
}

/// The Mach-O `__DATA` segment name.
pub open spec fn segment_data_name() -> Seq<u8> {
    seq![0x5Fu8, 0x5Fu8, 0x44u8, 0x41u8, 0x54u8, 0x41u8]
}

/// Whether a reported section is kept for PE: the `.rdata` read-only data
/// section, with an on-disk range.
pub open spec fn spec_pe_keep(s: (Seq<u8>, Seq<u8>, u64, u64, bool, u64, bool)) -> bool {
    s.1 == rdata_section_name() && s.6 && s.4
}

/// Whether a reported section is kept for Mach-O: a `__const` section of the
/// `__TEXT`, `__DATA_CONST` or `__DATA` segment, with an on-disk range.
pub open spec fn spec_macho_keep(s: (Seq<u8>, Seq<u8>, u64, u64, bool, u64, bool)) -> bool {
    (s.0 == segment_text_name() || s.0 == segment_data_const_name() || s.0 == segment_data_name())
        && s.1 == const_section_name() && s.4
}

/// The section descriptor a kept reported section turns into.
pub open spec fn spec_section_info(s: (Seq<u8>, Seq<u8>, u64, u64, bool, u64, bool)) -> SectionInfo {
    (SectionInfo { virtual_address: s.2, file_offset: s.5, size: s.3 })
}

/// The PE candidate sections, in enumeration order.
pub open spec fn spec_collect_pe(secs: Seq<(Seq<u8>, Seq<u8>, u64, u64, bool, u64, bool)>) -> Seq<
    SectionInfo,
>
    decreases secs.len(),
{
    if secs.len() == 0 {
        Seq::empty()
    } else {
        let rest = spec_collect_pe(secs.drop_first());
        if spec_pe_keep(secs.first()) {
            seq![spec_section_info(secs.first())] + rest
        } else {
            rest
        }
    }
}

/// The Mach-O candidate sections, in enumeration order.
pub open spec fn spec_collect_macho(secs: Seq<(Seq<u8>, Seq<u8>, u64, u64, bool, u64, bool)>) -> Seq<
    SectionInfo,
>
    decreases secs.len(),
{
    if secs.len() == 0 {
        Seq::empty()
    } else {
        let rest = spec_collect_macho(secs.drop_first());
        if spec_macho_keep(secs.first()) {
            seq![spec_section_info(secs.first())] + rest
        } else {
            rest
        }
    }
}

/// Compares a byte vector against a pattern.
fn bytes_eq(v: &Vec<u8>, pat: &[u8]) -> (r: bool)
    ensures
        r == (v@ == pat@),
{
    if v.len() != pat.len() {
        proof {
            assert(v@ != pat@);
        }
        return false;
    }
    let mut i: usize = 0;
    while i < v.len()
        invariant
            0 <= i <= v@.len(),
            v@.len() == pat@.len(),
            forall|j: int| 0 <= j < i ==> v@[j] == pat@[j],
        decreases v@.len() - i,
    {
        if v[i] != pat[i] {
            proof {
                assert(v@[i as int] != pat@[i as int]);
            }
            return false;
        }
        i += 1;
    }
    proof {
        assert(v@ =~= pat@);
    }
    true
}

/// Collects the PE sections that asset scanning works against.
pub fn collect_pe_sections(raw_secs: &Vec<RawSection>) -> (r: Vec<SectionInfo>)
    ensures
        r@ == spec_collect_pe(raw_secs@.map(|i: int, s: RawSection| sec_model(s))),
{
    let ghost models = raw_secs@.map(|i: int, s: RawSection| sec_model(s));
    let mut out: Vec<SectionInfo> = Vec::new();
    let mut idx: usize = 0;
    proof {
        assert(models.skip(0) =~= models);
        assert(out@ + spec_collect_pe(models) =~= spec_collect_pe(models));
    }
    while idx < raw_secs.len()
        invariant
            0 <= idx <= raw_secs@.len(),
            models == raw_secs@.map(|i: int, s: RawSection| sec_model(s)),
            out@ + spec_collect_pe(models.skip(idx as int)) == spec_collect_pe(models),
        decreases raw_secs@.len() - idx,
    {
        let s = &raw_secs[idx];
        proof {
            assert(models.skip(idx as int).first() == models[idx as int]);
            assert(models.skip(idx as int).drop_first() =~= models.skip(idx as int + 1));
        }
        let rdata_pat: [u8; 6] = [0x2E, 0x72, 0x64, 0x61, 0x74, 0x61];
        proof {
            assert(rdata_pat@ =~= rdata_section_name());
        }
        if bytes_eq(&s.name, rdata_pat.as_slice()) && s.is_readonly_data && s.has_file_range {
            let ghost old_out = out@;
            out.push(
                SectionInfo {
                    virtual_address: s.virtual_address,
                    file_offset: s.file_offset,
                    size: s.size,
                },
            );
            proof {
                let rest = spec_collect_pe(models.skip(idx as int + 1));
                assert(out@ =~= old_out + seq![spec_section_info(models[idx as int])]);
                assert(out@ + rest =~= old_out + (
                seq![spec_section_info(models[idx as int])] + rest));
            }
        }
        idx += 1;
    }
    proof {
        assert(models.skip(models.len() as int) =~= Seq::<
            (Seq<u8>, Seq<u8>, u64, u64, bool, u64, bool),
        >::empty());
        assert(out@ + Seq::<SectionInfo>::empty() =~= out@);
    }
    out
}

/// Collects the Mach-O sections that asset scanning works against.
pub fn collect_macho_sections(raw_secs: &Vec<RawSection>) -> (r: Vec<SectionInfo>)
    ensures
        r@ == spec_collect_macho(raw_secs@.map(|i: int, s: RawSection| sec_model(s))),
{
    let ghost models = raw_secs@.map(|i: int, s: RawSection| sec_model(s));
    let mut out: Vec<SectionInfo> = Vec::new();
    let mut idx: usize = 0;
    proof {
        assert(models.skip(0) =~= models);
        assert(out@ + spec_collect_macho(models) =~= spec_collect_macho(models));
    }
    while idx < raw_secs.len()
        invariant
            0 <= idx <= raw_secs@.len(),
            models == raw_secs@.map(|i: int, s: RawSection| sec_model(s)),
            out@ + spec_collect_macho(models.skip(idx as int)) == spec_collect_macho(models),
        decreases raw_secs@.len() - idx,
    {
        let s = &raw_secs[idx];
        proof {
            assert(models.skip(idx as int).first() == models[idx as int]);
            assert(models.skip(idx as int).drop_first() =~= models.skip(idx as int + 1));
        }
        let text_pat: [u8; 6] = [0x5F, 0x5F, 0x54, 0x45, 0x58, 0x54];
        let data_const_pat: [u8; 12] = [
            0x5F,
            0x5F,
            0x44,
            0x41,
            0x54,
            0x41,
            0x5F,
            0x43,
            0x4F,
            0x4E,
            0x53,
            0x54,
        ];
        let data_pat: [u8; 6] = [0x5F, 0x5F, 0x44, 0x41, 0x54, 0x41];
        let const_pat: [u8; 7] = [0x5F, 0x5F, 0x63, 0x6F, 0x6E, 0x73, 0x74];
        proof {
            assert(text_pat@ =~= segment_text_name());
            assert(data_const_pat@ =~= segment_data_const_name());
            assert(data_pat@ =~= segment_data_name());
            assert(const_pat@ =~= const_section_name());
        }
        let seg_ok = bytes_eq(&s.segment_name, text_pat.as_slice()) || bytes_eq(
            &s.segment_name,
            data_const_pat.as_slice(),
        ) || bytes_eq(&s.segment_name, data_pat.as_slice());
        if seg_ok && bytes_eq(&s.name, const_pat.as_slice()) && s.has_file_range {
            let ghost old_out = out@;
            out.push(
                SectionInfo {
                    virtual_address: s.virtual_address,
                    file_offset: s.file_offset,
                    size: s.size,
                },
            );
            proof {
                let rest = spec_collect_macho(models.skip(idx as int + 1));
                assert(out@ =~= old_out + seq![spec_section_info(models[idx as int])]);
                assert(out@ + rest =~= old_out + (
                seq![spec_section_info(models[idx as int])] + rest));
            }
        }
        idx += 1;
    }
    proof {
        assert(models.skip(models.len() as int) =~= Seq::<
            (Seq<u8>, Seq<u8>, u64, u64, bool, u64, bool),
        >::empty());
        assert(out@ + Seq::<SectionInfo>::empty() =~= out@);
    }
    out
}

/// The parser selected for a detected format.
pub enum AnyParser {
    Pe(PeParser),
    MachO(MachOParser),
}

impl BinaryParser for AnyParser {
    open spec fn spec_resolve(&self, ptr: u64) -> Option<u64> {
        match self {
            AnyParser::Pe(p) => p.spec_resolve(ptr),
            AnyParser::MachO(p) => p.spec_resolve(ptr),
        }
    }

    open spec fn spec_scan_range(&self) -> Option<ScanRange> {
        match self {
            AnyParser::Pe(p) => p.spec_scan_range(),
            AnyParser::MachO(p) => p.spec_scan_range(),
        }
    }

    fn resolve_pointer(&self, ptr: u64) -> (r: Result<u64, DumpError>) {
        match self {
            AnyParser::Pe(p) => p.resolve_pointer(ptr),
            AnyParser::MachO(p) => p.resolve_pointer(ptr),
        }
    }

    fn scan_range(&self) -> (r: Result<ScanRange, DumpError>) {
        match self {
            AnyParser::Pe(p) => p.scan_range(),
            AnyParser::MachO(p) => p.scan_range(),
        }
    }
}

/// Whether two parsers have the same mathematical content: same variant,
/// same sections, and (for Mach-O) same fixup format and image base.
pub open spec fn spec_same_parser(p: AnyParser, q: AnyParser) -> bool {
    match (p, q) {
        (AnyParser::Pe(a), AnyParser::Pe(b)) => a.sections@ == b.sections@,
        (AnyParser::MachO(a), AnyParser::MachO(b)) => a.sections@ == b.sections@
            && a.fixup_format == b.fixup_format && a.image_base == b.image_base,
        _ => false,
    }
}

/// Parsers of the same content resolve every pointer alike and report the
/// same scan window.
pub proof fn lemma_same_parser_same_behaviour(p: AnyParser, q: AnyParser, ptr: u64)
    requires
        spec_same_parser(p, q),
    ensures
        p.spec_resolve(ptr) == q.spec_resolve(ptr),
        p.spec_scan_range() == q.spec_scan_range(),
{
}

/// The bytes pin the parser down: two parsers that both match the same bytes
/// have the same content.
pub proof fn lemma_parser_matches_unique(p: AnyParser, q: AnyParser, data: Seq<u8>)
    requires
        spec_parser_matches(p, data),
        spec_parser_matches(q, data),
    ensures
        spec_same_parser(p, q),
{
}

/// Whether the parser is the one the bytes determine: right variant, right
/// sections, and (for Mach-O) right fixup format and image base.
pub open spec fn spec_parser_matches(p: AnyParser, data: Seq<u8>) -> bool {
    match p {
        AnyParser::Pe(pe) => {
            &&& macho_format_of(data) == Some(false)
            &&& image_sections_of(data) is Some
            &&& pe.sections@ == spec_collect_pe(image_sections_of(data).unwrap())
        },
        AnyParser::MachO(m) => {
            &&& macho_format_of(data) == Some(true)
            &&& image_sections_of(data) is Some
            &&& macho_commands_of(data) is Some
            &&& m.sections@ == spec_collect_macho(image_sections_of(data).unwrap())
            &&& m.fixup_format == spec_fixup_format(macho_commands_of(data).unwrap())
            &&& m.image_base == spec_image_base(macho_commands_of(data).unwrap())
        },
    }
}

/// Whether parser construction succeeds on the bytes.
pub open spec fn spec_create_parser_ok(data: Seq<u8>) -> bool {
    match macho_format_of(data) {
        None => false,
        Some(true) => image_sections_of(data) is Some && macho_commands_of(data) is Some,
        Some(false) => {
            &&& image_sections_of(data) is Some
            &&& spec_collect_pe(image_sections_of(data).unwrap()).len() == 1
            &&& spec_collect_pe(image_sections_of(data).unwrap())[0].size > 0
        },
    }
}

/// Creates the appropriate binary parser based on the detected format.
///
/// An empty input is rejected at format detection.
pub fn create_parser(data: &[u8]) -> (r: Result<AnyParser, DumpError>)
    ensures
        r is Ok <==> spec_create_parser_ok(data@),
        r matches Ok(p) ==> spec_parser_matches(p, data@),
        r matches Err(e) ==> e == DumpError::Format,
        r is Ok ==> data@.len() > 0,
{
    let is_macho = match detect_macho(data) {
        Ok(b) => b,
        Err(e) => {
            return Err(e);
        },
    };
    let raw_secs = match image_sections(data) {
        Ok(v) => v,
        Err(e) => {
            return Err(e);
        },
    };
    if is_macho {
        let sections = collect_macho_sections(&raw_secs);
        match MachOParser::new(data, sections) {
            Ok(p) => Ok(AnyParser::MachO(p)),
            Err(e) => Err(e),
        }
    } else {
        let sections = collect_pe_sections(&raw_secs);
        match PeParser::new(sections) {
            Ok(p) => Ok(AnyParser::Pe(p)),
            Err(e) => Err(e),
        }
    }
}

} // verus!
