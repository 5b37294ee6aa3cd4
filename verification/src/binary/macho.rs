//! Mach-O binary format parser.

use vstd::prelude::*;

use crate::binary::BinaryParser;
use crate::binary::DumpError;
use crate::binary::ScanRange;
use crate::binary::SectionInfo;
use crate::binary::raw::RawLoadCommand;
use crate::binary::raw::cmd_model;
use crate::binary::raw::macho_commands_of;
use crate::binary::raw::macho_load_commands;
use crate::binary::sec_contains;
use crate::binary::sec_translate;

verus! {

/// Command type of a 64-bit segment load command.
pub const LC_SEGMENT_64: u32 = 0x19;

/// Command type of a chained-fixups load command.
pub const LC_DYLD_CHAINED_FIXUPS: u32 = 0x80000034;

/// Image base assumed when no `__TEXT` segment reports one.
pub const DEFAULT_IMAGE_BASE: u64 = 0x100000000;

/// In a chained-fixup pointer, the low 43 bits carry the offset from the
/// image base; the higher bits are metadata.
pub const POINTER_TARGET_MASK: u64 = 0x7FFFFFFFFFF;

/// Mach-O pointer fixup format.
///
/// Modern macOS binaries use chained fixups, while older ones use traditional rebase.
#[derive(Debug, Clone, Copy, PartialEq, Eq, Structural)]
pub enum FixupFormat {
    /// Modern chained fixups.
    ///
    /// Pointer format: high bits contain metadata, low 43 bits contain offset from image base.
    ChainedFixups,
    /// Traditional rebase format.
    ///
    /// Pointer value is the actual virtual address.
    Traditional,
}

/// The 16-byte name of the `__TEXT` segment: `__TEXT` padded with NULs.
pub open spec fn text_segment_name() -> Seq<u8> {
    seq![0x5Fu8, 0x5Fu8, 0x54u8, 0x45u8, 0x58u8, 0x54u8, 0u8, 0u8, 0u8, 0u8, 0u8, 0u8, 0u8, 0u8, 0u8, 0u8]
}

/// Whether a load command is the `__TEXT` 64-bit segment command.
pub open spec fn spec_is_text_segment(c: (u32, Seq<u8>, u64)) -> bool {
    c.0 == LC_SEGMENT_64 && c.1 == text_segment_name()
}

/// Whether some load command announces chained fixups.
pub open spec fn spec_has_chained_fixups(cmds: Seq<(u32, Seq<u8>, u64)>) -> bool {
    exists|i: int| 0 <= i < cmds.len() && (#[trigger] cmds[i]).0 == LC_DYLD_CHAINED_FIXUPS
}

/// The image base: the mapped address of the last `__TEXT` segment command,
/// or the default when there is none.
pub open spec fn spec_image_base(cmds: Seq<(u32, Seq<u8>, u64)>) -> u64
    decreases cmds.len(),
{
    if cmds.len() == 0 {
        DEFAULT_IMAGE_BASE
    } else if spec_is_text_segment(cmds.last()) {
        cmds.last().2
    } else {
        spec_image_base(cmds.drop_last())
    }
}

/// The fixup format the load commands select.
pub open spec fn spec_fixup_format(cmds: Seq<(u32, Seq<u8>, u64)>) -> FixupFormat {
    if spec_has_chained_fixups(cmds) {
        FixupFormat::ChainedFixups
    } else {
        FixupFormat::Traditional
    }
}

/// Mach-O binary parser with support for both chained fixups and traditional formats.
pub struct MachOParser {
    pub sections: Vec<SectionInfo>,
    pub fixup_format: FixupFormat,
    pub image_base: u64,
}

impl MachOParser {
    /// Creates a new Mach-O parser from raw binary data.
    ///
    /// Fails exactly when the Mach-O header or its load commands do not parse.
    pub fn new(data: &[u8], sections: Vec<SectionInfo>) -> (r: Result<Self, DumpError>)
        ensures
            r is Ok <==> macho_commands_of(data@) is Some,
            r is Ok ==> {
                let p = r.unwrap();
                let cmds = macho_commands_of(data@).unwrap();
                &&& p.sections@ == sections@
                &&& p.fixup_format == spec_fixup_format(cmds)
                &&& p.image_base == spec_image_base(cmds)
            },
            r is Err ==> r == Result::<Self, DumpError>::Err(DumpError::Format),
    {
        let cmds = match macho_load_commands(data) {
            Ok(cmds) => cmds,
            Err(_) => {
                return Err(DumpError::Format);
            },
        };
        let (fixup_format, image_base) = Self::detect_fixup_format(&cmds);
        Ok(Self { sections, fixup_format, image_base })
    }

    /// Detects the fixup format and the image base from the load commands.
    pub fn detect_fixup_format(cmds: &Vec<RawLoadCommand>) -> (r: (FixupFormat, u64))
        ensures
            r.0 == spec_fixup_format(cmds@.map(|i: int, c: RawLoadCommand| cmd_model(c))),
            r.1 == spec_image_base(cmds@.map(|i: int, c: RawLoadCommand| cmd_model(c))),
    {
        let ghost models = cmds@.map(|i: int, c: RawLoadCommand| cmd_model(c));
        let mut has_chained_fixups = false;
        let mut image_base: u64 = DEFAULT_IMAGE_BASE;
        let mut idx: usize = 0;
        while idx < cmds.len()
            invariant
                0 <= idx <= cmds@.len(),
                models == cmds@.map(|i: int, c: RawLoadCommand| cmd_model(c)),
                has_chained_fixups == spec_has_chained_fixups(models.take(idx as int)),
                image_base == spec_image_base(models.take(idx as int)),
            decreases cmds@.len() - idx,
        {
            let c = &cmds[idx];
            if c.cmd == LC_DYLD_CHAINED_FIXUPS {
                has_chained_fixups = true;
            }
            if c.cmd == LC_SEGMENT_64 && is_text_segment_name(&c.segment_name) {
                image_base = c.vmaddr;
            }
            idx += 1;
            proof {
                let taken = models.take(idx as int);
                assert(taken.drop_last() =~= models.take(idx as int - 1));
                assert(taken.last() == cmd_model(cmds@[idx as int - 1]));
                let prev = models.take(idx as int - 1);
                if spec_has_chained_fixups(prev) {
                    let i = choose|i: int| 0 <= i < prev.len() && (#[trigger] prev[i]).0 == LC_DYLD_CHAINED_FIXUPS;
                    assert(taken[i].0 == LC_DYLD_CHAINED_FIXUPS);
                    assert(spec_has_chained_fixups(taken));
                }
                if taken[idx as int - 1].0 == LC_DYLD_CHAINED_FIXUPS {
                    assert(spec_has_chained_fixups(taken));
                }
                if spec_has_chained_fixups(taken) && !spec_has_chained_fixups(prev) {
                    let i = choose|i: int| 0 <= i < taken.len() && (#[trigger] taken[i]).0 == LC_DYLD_CHAINED_FIXUPS;
                    assert(i == idx - 1);
                }
            }
        }
        proof {
            assert(models.take(cmds@.len() as int) =~= models);
        }
        (
            if has_chained_fixups {
                FixupFormat::ChainedFixups
            } else {
                FixupFormat::Traditional
            },
            image_base,
        )
    }

    /// The virtual address a raw pointer decodes to. A chained-fixup pointer
    /// adds its low 43 bits to the image base, wrapping on overflow; a
    /// traditional pointer already is the virtual address.
    pub open spec fn spec_decode(&self, ptr: u64) -> u64 {
        match self.fixup_format {
            FixupFormat::ChainedFixups => vstd::wrapping::u64_specs::wrapping_add(
                self.image_base,
                ptr & POINTER_TARGET_MASK,
            ),
            FixupFormat::Traditional => ptr,
        }
    }

    /// Decodes a raw pointer to get the actual virtual address.
    pub fn decode_pointer(&self, ptr: u64) -> (va: u64)
        ensures
            va == self.spec_decode(ptr),
    {
        match self.fixup_format {
            FixupFormat::ChainedFixups => {
                let offset = ptr & POINTER_TARGET_MASK;
                self.image_base.wrapping_add(offset)
            },
            FixupFormat::Traditional => ptr,
        }
    }

    /// The first section containing the virtual address, if any.
    pub open spec fn spec_first_containing(sections: Seq<SectionInfo>, va: u64) -> Option<
        SectionInfo,
    >
        decreases sections.len(),
    {
        if sections.len() == 0 {
            None
        } else if sec_contains(sections.first(), va) {
            Some(sections.first())
        } else {
            Self::spec_first_containing(sections.drop_first(), va)
        }
    }

    /// The file offset a virtual address maps to: the translation through the
    /// first section containing it, provided that fits in a `u64`.
    pub open spec fn spec_va_to_file_offset(&self, va: u64) -> Option<u64> {
        match Self::spec_first_containing(self.sections@, va) {
            Some(s) => if sec_translate(s, va) <= u64::MAX {
                Some(sec_translate(s, va) as u64)
            } else {
                None
            },
            None => None,
        }
    }

    /// Converts a virtual address to a file offset.
    pub fn va_to_file_offset(&self, va: u64) -> (r: Result<u64, DumpError>)
        ensures
            r == (match self.spec_va_to_file_offset(va) {
                Some(off) => Result::<u64, DumpError>::Ok(off),
                None => Result::<u64, DumpError>::Err(DumpError::Pointer),
            }),
    {
        let mut idx: usize = 0;
        proof {
            assert(self.sections@.skip(0) =~= self.sections@);
        }
        while idx < self.sections.len()
            invariant
                0 <= idx <= self.sections@.len(),
                Self::spec_first_containing(self.sections@, va)
                    == Self::spec_first_containing(self.sections@.skip(idx as int), va),
                forall|i: int| 0 <= i < idx ==> !sec_contains(self.sections@[i], va),
            decreases self.sections@.len() - idx,
        {
            let s = &self.sections[idx];
            proof {
                assert(self.sections@.skip(idx as int).first() == self.sections@[idx as int]);
                assert(self.sections@.skip(idx as int).drop_first() =~= self.sections@.skip(
                    idx as int + 1,
                ));
            }
            if va >= s.virtual_address && va - s.virtual_address < s.size {
                let delta = va - s.virtual_address;
                if delta <= u64::MAX - s.file_offset {
                    return Ok(s.file_offset + delta);
                } else {
                    return Err(DumpError::Pointer);
                }
            }
            idx += 1;
        }
        proof {
            assert(self.sections@.skip(self.sections@.len() as int) =~= Seq::<
                SectionInfo,
            >::empty());
        }
        Err(DumpError::Pointer)
    }
}

/// Compares a segment name against the padded `__TEXT` name.
fn is_text_segment_name(name: &Vec<u8>) -> (b: bool)
    ensures
        b == (name@ == text_segment_name()),
{
    if name.len() != 16 {
        proof {
            assert(name@ != text_segment_name());
        }
        return false;
    }
    let pat: [u8; 16] = [0x5F, 0x5F, 0x54, 0x45, 0x58, 0x54, 0, 0, 0, 0, 0, 0, 0, 0, 0, 0];
    proof {
        assert(pat@ =~= text_segment_name());
    }
    let mut i: usize = 0;
    while i < 16
        invariant
            0 <= i <= 16,
            name@.len() == 16,
            pat@ =~= text_segment_name(),
            forall|j: int| 0 <= j < i ==> name@[j] == text_segment_name()[j],
        decreases 16 - i,
    {
        if name[i] != pat[i] {
            proof {
                assert(name@[i as int] != text_segment_name()[i as int]);
            }
            return false;
        }
        i += 1;
    }
    proof {
        assert(name@ =~= text_segment_name());
    }
    true
}

impl BinaryParser for MachOParser {
    /// A raw Mach-O pointer resolves iff its decoded virtual address lies in
    /// some known section (the first such section is used).
    open spec fn spec_resolve(&self, ptr: u64) -> Option<u64> {
        self.spec_va_to_file_offset(self.spec_decode(ptr))
    }

    /// The scan window is the last collected section: the intended placement
    /// of asset-header tables, typically `__DATA_CONST,__const`.
    open spec fn spec_scan_range(&self) -> Option<ScanRange> {
        if self.sections@.len() == 0 {
            None
        } else {
            let s = self.sections@.last();
            if s.file_offset <= usize::MAX && s.size <= usize::MAX {
                Some(ScanRange { start: s.file_offset as usize, length: s.size as usize })
            } else {
                None
            }
        }
    }

    fn resolve_pointer(&self, ptr: u64) -> (r: Result<u64, DumpError>) {
        let va = self.decode_pointer(ptr);
        self.va_to_file_offset(va)
    }

    fn scan_range(&self) -> (r: Result<ScanRange, DumpError>) {
        if self.sections.len() == 0 {
            return Err(DumpError::Format);
        }
        let s = &self.sections[self.sections.len() - 1];
        if s.file_offset <= usize::MAX as u64 && s.size <= usize::MAX as u64 {
            Ok(ScanRange { start: s.file_offset as usize, length: s.size as usize })
        } else {
            Err(DumpError::Format)
        }
    }
}

/// A chained-fixup pointer decodes to the image base plus its low 43 bits,
/// exactly, whenever that sum does not exceed `u64::MAX`.
pub proof fn lemma_decode_chained_exact(p: MachOParser, ptr: u64)
    requires
        p.fixup_format == FixupFormat::ChainedFixups,
        p.image_base + (ptr & POINTER_TARGET_MASK) <= u64::MAX,
    ensures
        p.spec_decode(ptr) == p.image_base + (ptr & POINTER_TARGET_MASK),
{
}

/// A traditional pointer equal to a virtual address inside a known section
/// resolves to `va - virtual_address + file_offset` of the first such
/// section, whenever that offset fits in a `u64`.
pub proof fn lemma_traditional_resolve_in_section(p: MachOParser, va: u64, s: SectionInfo)
    requires
        p.fixup_format == FixupFormat::Traditional,
        MachOParser::spec_first_containing(p.sections@, va) == Some(s),
        sec_translate(s, va) <= u64::MAX,
    ensures
        p.spec_resolve(va) == Some(sec_translate(s, va) as u64),
{
}

/// A virtual address outside all known sections is always rejected.
pub proof fn lemma_resolve_rejects_outside(p: MachOParser, ptr: u64)
    requires
        forall|i: int|
            0 <= i < p.sections@.len() ==> !sec_contains(p.sections@[i], p.spec_decode(ptr)),
    ensures
        p.spec_resolve(ptr) is None,
{
    lemma_first_containing_none(p.sections@, p.spec_decode(ptr));
}

/// When no section contains the address, the lookup finds none.
proof fn lemma_first_containing_none(sections: Seq<SectionInfo>, va: u64)
    requires
        forall|i: int| 0 <= i < sections.len() ==> !sec_contains(sections[i], va),
    ensures
        MachOParser::spec_first_containing(sections, va) is None,
    decreases sections.len(),
{
    if sections.len() > 0 {
        assert(sections.first() == sections[0]);
        assert(forall|i: int|
            0 <= i < sections.drop_first().len() ==> sections.drop_first()[i] == sections[i + 1]);
        lemma_first_containing_none(sections.drop_first(), va);
    }
}

} // verus!
