//! PE (Portable Executable) binary format parser.

use vstd::prelude::*;

use crate::binary::BinaryParser;
use crate::binary::DumpError;
use crate::binary::ScanRange;
use crate::binary::SectionInfo;
use crate::binary::sec_contains;
use crate::binary::sec_translate;

verus! {

/// PE binary parser.
///
/// Pointer resolution works against the single `.rdata` section; the
/// constructor accepts exactly one non-empty section.
pub struct PeParser {
    pub sections: Vec<SectionInfo>,
}

impl PeParser {
    /// Creates a new PE parser with the given sections.
    ///
    /// Fails unless exactly one non-empty `.rdata` section was found.
    pub fn new(sections: Vec<SectionInfo>) -> (r: Result<Self, DumpError>)
        ensures
            r is Ok <==> sections@.len() == 1 && sections@[0].size > 0,
            r is Err ==> r == Result::<Self, DumpError>::Err(DumpError::Format),
            r is Ok ==> r.unwrap().sections@ == sections@,
    {
        if sections.len() != 1 {
            return Err(DumpError::Format);
        }
        if sections[0].size == 0 {
            return Err(DumpError::Format);
        }
        Ok(Self { sections })
    }
}

impl BinaryParser for PeParser {
    /// A raw PE pointer is a virtual address; it resolves iff it lies in the
    /// `.rdata` section and the translated offset fits in a `u64`.
    open spec fn spec_resolve(&self, ptr: u64) -> Option<u64> {
        if self.sections@.len() == 0 {
            None
        } else {
            let s = self.sections@[0];
            if sec_contains(s, ptr) && sec_translate(s, ptr) <= u64::MAX {
                Some(sec_translate(s, ptr) as u64)
            } else {
                None
            }
        }
    }

    /// The scan window is the whole `.rdata` section.
    open spec fn spec_scan_range(&self) -> Option<ScanRange> {
        if self.sections@.len() == 0 {
            None
        } else {
            let s = self.sections@[0];
            if s.file_offset <= usize::MAX && s.size <= usize::MAX {
                Some(ScanRange { start: s.file_offset as usize, length: s.size as usize })
            } else {
                None
            }
        }
    }

    fn resolve_pointer(&self, ptr: u64) -> (r: Result<u64, DumpError>) {
        if self.sections.len() == 0 {
            return Err(DumpError::Pointer);
        }
        let s = &self.sections[0];
        if ptr >= s.virtual_address && ptr - s.virtual_address < s.size {
            let delta = ptr - s.virtual_address;
            if delta <= u64::MAX - s.file_offset {
                Ok(s.file_offset + delta)
            } else {
                Err(DumpError::Pointer)
            }
        } else {
            Err(DumpError::Pointer)
        }
    }

    fn scan_range(&self) -> (r: Result<ScanRange, DumpError>) {
        if self.sections.len() == 0 {
            return Err(DumpError::Format);
        }
        let s = &self.sections[0];
        if s.file_offset <= usize::MAX as u64 && s.size <= usize::MAX as u64 {
            Ok(ScanRange { start: s.file_offset as usize, length: s.size as usize })
        } else {
            Err(DumpError::Format)
        }
    }
}

/// For a virtual address inside the `.rdata` section, resolution returns
/// exactly `ptr - virtual_address + file_offset`.
pub proof fn lemma_pe_resolve_in_section(p: PeParser, ptr: u64)
    requires
        p.sections@.len() > 0,
        sec_contains(p.sections@[0], ptr),
        sec_translate(p.sections@[0], ptr) <= u64::MAX,
    ensures
        p.spec_resolve(ptr) == Some(sec_translate(p.sections@[0], ptr) as u64),
{
}

/// A virtual address outside the `.rdata` section is always rejected.
pub proof fn lemma_pe_resolve_rejects_outside(p: PeParser, ptr: u64)
    requires
        forall|i: int| 0 <= i < p.sections@.len() ==> !sec_contains(p.sections@[i], ptr),
    ensures
        p.spec_resolve(ptr) is None,
{
}

} // verus!
