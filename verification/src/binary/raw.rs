//! Trusted access to the `object` crate.
//!
//! The raw bytes of an executable are inspected through the `object` crate;
//! everything it reports is handed back to verified code as plain values.
//! Each result is a function of the input bytes alone, so it is given a name
//! that the wrappers' contracts speak of.

use vstd::prelude::*;

use crate::binary::DumpError;
use object::Endianness;
use object::Object;
use object::ObjectSection;
use object::macho::MachHeader64;
use object::macho::SegmentCommand64;
use object::read::macho::MachHeader;

verus! {

/// One section of the image, as plain values.
#[derive(Debug, Clone)]
pub struct RawSection {
    /// The name of the segment the section belongs to (empty when none).
    pub segment_name: Vec<u8>,
    /// The name of the section.
    pub name: Vec<u8>,
    /// The virtual address the section is mapped at.
    pub virtual_address: u64,
    /// The size of the section in memory.
    pub size: u64,
    /// Whether the section has an on-disk range.
    pub has_file_range: bool,
    /// The file offset of the on-disk range (0 when there is none).
    pub file_offset: u64,
    /// Whether the section is classified as read-only data.
    pub is_readonly_data: bool,
}

/// The mathematical value of one reported section.
pub open spec fn sec_model(s: RawSection) -> (Seq<u8>, Seq<u8>, u64, u64, bool, u64, bool) {
    (
        s.segment_name@,
        s.name@,
        s.virtual_address,
        s.size,
        s.has_file_range,
        s.file_offset,
        s.is_readonly_data,
    )
}

/// One Mach-O load command, as plain values.
#[derive(Debug, Clone)]
pub struct RawLoadCommand {
    /// The command type.
    pub cmd: u32,
    /// For a 64-bit segment command, the 16-byte segment name; empty otherwise.
    pub segment_name: Vec<u8>,
    /// For a 64-bit segment command, the mapped virtual address; 0 otherwise.
    pub vmaddr: u64,
}

/// The mathematical value of one reported load command.
pub open spec fn cmd_model(c: RawLoadCommand) -> (u32, Seq<u8>, u64) {
    (c.cmd, c.segment_name@, c.vmaddr)
}

/// Whether the bytes parse as a supported container, and which one:
/// `Some(true)` for Mach-O, `Some(false)` for PE, `None` otherwise.
pub uninterp spec fn macho_format_of(data: Seq<u8>) -> Option<bool>;

/// The section table of the image, or `None` when the bytes do not parse.
pub uninterp spec fn image_sections_of(data: Seq<u8>) -> Option<
    Seq<(Seq<u8>, Seq<u8>, u64, u64, bool, u64, bool)>,
>;

/// The Mach-O load commands of the image, or `None` when the header does not
/// parse.
pub uninterp spec fn macho_commands_of(data: Seq<u8>) -> Option<Seq<(u32, Seq<u8>, u64)>>;

/// Relies on `object::File::parse` and `object::File::format`: whether the
/// bytes are a PE or a Mach-O image. Both are functions of the bytes alone,
/// and parsing an empty input always fails.
#[verifier::external_body]
pub(crate) fn detect_macho(data: &[u8]) -> (r: Result<bool, DumpError>)
    ensures
        r == (match macho_format_of(data@) {
            Some(m) => Result::<bool, DumpError>::Ok(m),
            None => Result::<bool, DumpError>::Err(DumpError::Format),
        }),
        r is Ok ==> data@.len() > 0,
{
    let obj = object::File::parse(data).map_err(|_| DumpError::Format)?;
    match obj.format() {
        object::BinaryFormat::Pe => Ok(false),
        object::BinaryFormat::MachO => Ok(true),
        _ => Err(DumpError::Format),
    }
}

/// Relies on `object::File::parse` and the `ObjectSection` accessors
/// (`segment_name`, `name`, `address`, `size`, `file_range`, `kind`): the
/// section table of the image, a function of the bytes alone.
#[verifier::external_body]
pub(crate) fn image_sections(data: &[u8]) -> (r: Result<Vec<RawSection>, DumpError>)
    ensures
        r matches Ok(v) ==> image_sections_of(data@) == Some(
            v@.map(|i: int, s: RawSection| sec_model(s)),
        ),
        r matches Err(e) ==> image_sections_of(data@) is None && e == DumpError::Format,
{
    let obj = object::File::parse(data).map_err(|_| DumpError::Format)?;
    let mut v: Vec<RawSection> = Vec::new();
    for s in obj.sections() {
        let fr = s.file_range();
        v.push(RawSection {
            segment_name: s.segment_name().ok().flatten().unwrap_or("").as_bytes().to_vec(),
            name: s.name().unwrap_or("").as_bytes().to_vec(),
            virtual_address: s.address(),
            size: s.size(),
            has_file_range: fr.is_some(),
            file_offset: fr.unwrap_or((0, 0)).0,
            is_readonly_data: s.kind() == object::SectionKind::ReadOnlyData,
        });
    }
    Ok(v)
}

/// Relies on `object`'s `MachHeader64` load-command iteration (`parse`,
/// `endian`, `load_commands`, `LoadCommandData::cmd` and `data`): the list of
/// load commands with, for each segment command, its name and mapped address.
/// All are functions of the bytes alone.
#[verifier::external_body]
pub(crate) fn macho_load_commands(data: &[u8]) -> (r: Result<Vec<RawLoadCommand>, DumpError>)
    ensures
        r matches Ok(v) ==> macho_commands_of(data@) == Some(
            v@.map(|i: int, c: RawLoadCommand| cmd_model(c)),
        ),
        r matches Err(e) ==> macho_commands_of(data@) is None && e == DumpError::Format,
{
    let header = MachHeader64::<Endianness>::parse(data, 0).map_err(|_| DumpError::Format)?;
    let endian = header.endian().map_err(|_| DumpError::Format)?;
    let mut it = header.load_commands(endian, data, 0).map_err(|_| DumpError::Format)?;
    let mut v: Vec<RawLoadCommand> = Vec::new();
    while let Some(cmd) = it.next().map_err(|_| DumpError::Format)? {
        let (segment_name, vmaddr) = match cmd.data::<SegmentCommand64<Endianness>>() {
            Ok(seg) => (seg.segname.to_vec(), seg.vmaddr.get(endian)),
            Err(_) => (Vec::new(), 0),
        };
        v.push(RawLoadCommand { cmd: cmd.cmd().0, segment_name, vmaddr });
    }
    Ok(v)
}

} // verus!
