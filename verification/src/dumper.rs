//! Asset extraction: scanning a binary's data sections for embedded,
//! brotli-compressed assets.

use vstd::prelude::*;

use vstd::bytes::spec_u64_from_le_bytes;
use vstd::bytes::u64_from_le_bytes;
use vstd::slice::slice_to_vec;

use crate::binary::AnyParser;
use crate::binary::BinaryParser;
use crate::binary::DumpError;
use crate::binary::create_parser;
use crate::binary::spec_create_parser_ok;
use crate::binary::spec_parser_matches;
use crate::codec::brotli_decoded;
use crate::codec::brotli_decompress;

verus! {

/// Size of the asset header record in bytes: four 64-bit fields.
pub const ASSET_HEADER_SIZE: usize = 32;

/// Raw asset header as stored in the binary.
#[derive(Debug)]
struct AssetHeader {
    name_ptr: u64,
    name_len: u64,
    data_ptr: u64,
    data_size: u64,
}

/// A parsed asset with its name and compressed data.
#[derive(Debug)]
pub struct Asset {
    pub name: String,
    pub data: Vec<u8>,
}

/// The mathematical value of an asset: its name bytes and its data bytes.
pub open spec fn asset_matches(a: Asset, m: (Seq<u8>, Seq<u8>)) -> bool {
    a.name@ == ascii_to_chars(m.0) && a.data@ == m.1
}

/// The characters that a sequence of ASCII bytes spells.
pub open spec fn ascii_to_chars(bs: Seq<u8>) -> Seq<char> {
    bs.map(|i: int, b: u8| b as char)
}

/// Whether every byte is ASCII.
pub open spec fn all_ascii(bs: Seq<u8>) -> bool {
    forall|i: int| 0 <= i < bs.len() ==> (#[trigger] bs[i]) < 0x80
}

/// The code of a character.
pub open spec fn char_code(c: char) -> u32 {
    c as u32
}

/// Whether every character is ASCII.
pub open spec fn chars_all_ascii(s: Seq<char>) -> bool {
    forall|j: int| 0 <= j < s.len() ==> char_code(#[trigger] s[j]) < 0x80
}

/// The 64-bit little-endian integer stored at a byte offset.
pub open spec fn spec_le64_at(data: Seq<u8>, off: int) -> u64 {
    spec_u64_from_le_bytes(data.subrange(off, off + 8))
}

/// Whether the resolved name and data regions lie within the file.
pub open spec fn spec_regions_in_bounds(
    data: Seq<u8>,
    name_off: u64,
    name_len: u64,
    data_off: u64,
    data_size: u64,
) -> bool {
    &&& name_off < data.len()
    &&& name_off + name_len <= data.len()
    &&& data_off < data.len()
    &&& data_off + data_size <= data.len()
}

/// What a candidate header at `off` yields: the name and data bytes, or the
/// reason it is rejected. A header that does not fit the file is a bounds
/// rejection; an unresolvable pointer a pointer rejection; a region outside
/// the file a bounds rejection; a failed content check (leading separator,
/// codec probe, ASCII name) a validation rejection.
pub open spec fn spec_parse_candidate(p: AnyParser, data: Seq<u8>, off: int) -> Result<
    (Seq<u8>, Seq<u8>),
    DumpError,
> {
    if off < 0 || off + ASSET_HEADER_SIZE > data.len() {
        Err(DumpError::Bounds)
    } else {
        let name_ptr = spec_le64_at(data, off);
        let name_len = spec_le64_at(data, off + 8);
        let data_ptr = spec_le64_at(data, off + 16);
        let data_size = spec_le64_at(data, off + 24);
        match (p.spec_resolve(name_ptr), p.spec_resolve(data_ptr)) {
            (Some(name_off), Some(data_off)) => {
                if !spec_regions_in_bounds(data, name_off, name_len, data_off, data_size) {
                    Err(DumpError::Bounds)
                } else if data[name_off as int] != 0x2F {
                    Err(DumpError::Validation)
                } else {
                    let name_bytes = data.subrange(
                        name_off as int,
                        name_off as int + name_len as int,
                    );
                    let data_bytes = data.subrange(
                        data_off as int,
                        data_off as int + data_size as int,
                    );
                    if brotli_decoded(data_bytes) is None {
                        Err(DumpError::Validation)
                    } else if !all_ascii(name_bytes) {
                        Err(DumpError::Validation)
                    } else {
                        Ok((name_bytes, data_bytes))
                    }
                }
            },
            _ => Err(DumpError::Pointer),
        }
    }
}

/// What a candidate header at `off` yields: `None` when any decode,
/// resolution, bounds or content check rejects it, else the name and data
/// bytes.
pub open spec fn spec_try_parse(p: AnyParser, data: Seq<u8>, off: int) -> Option<(Seq<u8>, Seq<u8>)> {
    match spec_parse_candidate(p, data, off) {
        Ok(m) => Some(m),
        Err(_) => None,
    }
}

/// The assets found by the two-state heuristic walk from `off` to `end`.
///
/// While probing, the walk advances in strides of `step`; any successful
/// match appends the asset, and the stride stays at the header size from
/// then on. Candidates are never revisited and the walk has no early exit.
pub open spec fn spec_scan(p: AnyParser, data: Seq<u8>, off: int, end: int, step: int) -> Seq<
    (Seq<u8>, Seq<u8>),
>
    decreases end - off,
    when 1 <= step <= ASSET_HEADER_SIZE
{
    if off + ASSET_HEADER_SIZE > end {
        Seq::empty()
    } else {
        match spec_try_parse(p, data, off) {
            Some(a) => seq![a] + spec_scan(p, data, off + ASSET_HEADER_SIZE, end, ASSET_HEADER_SIZE as int),
            None => spec_scan(p, data, off + step, end, step),
        }
    }
}

/// Relies on `String::from_utf8`: ASCII bytes are valid UTF-8 and decode to
/// one character per byte, with the same code.
#[verifier::external_body]
fn string_from_ascii(bytes: Vec<u8>) -> (r: String)
    requires
        all_ascii(bytes@),
    ensures
        r@ == ascii_to_chars(bytes@),
{
    match String::from_utf8(bytes) {
        Ok(s) => s,
        Err(_) => String::new(),
    }
}

/// Extracts embedded assets from an executable's bytes.
pub struct Dumper {
    pub data: Vec<u8>,
    pub parser: AnyParser,
}

impl Dumper {
    /// Creates a new dumper for the given file contents.
    ///
    /// Fails exactly when no parser can be built from the bytes: the format
    /// is unrecognized, or the required sections are missing. In particular
    /// an empty input is rejected at format detection, before any scanning.
    pub fn new(data: Vec<u8>) -> (r: Result<Dumper, DumpError>)
        ensures
            r is Ok <==> spec_create_parser_ok(data@),
            r matches Ok(d) ==> d.data@ == data@ && spec_parser_matches(d.parser, data@),
            r matches Err(e) ==> e == DumpError::Format,
            r is Ok ==> data@.len() > 0,
    {
        let parser = match create_parser(data.as_slice()) {
            Ok(p) => p,
            Err(e) => {
                return Err(e);
            },
        };
        Ok(Dumper { data, parser })
    }

    /// The scan outcome this dumper's bytes and parser determine: the window
    /// checked against the file length, then the walk over it.
    pub open spec fn spec_scan_result(&self) -> Result<Seq<(Seq<u8>, Seq<u8>)>, DumpError> {
        match self.parser.spec_scan_range() {
            None => Err(DumpError::Format),
            Some(range) => {
                let end = if range.start + range.length > usize::MAX {
                    usize::MAX as int
                } else {
                    range.start + range.length
                };
                if end > self.data@.len() {
                    Err(DumpError::ScanRange)
                } else {
                    Ok(spec_scan(self.parser, self.data@, range.start as int, end, 8))
                }
            },
        }
    }

    /// Scans the binary for embedded assets.
    ///
    /// Fails when no scan window exists, or when the window exceeds the file
    /// length; otherwise returns, in file-offset order, every asset the walk
    /// over the window accepts.
    pub fn scan_assets(&self) -> (r: Result<Vec<Asset>, DumpError>)
        ensures
            r is Ok <==> self.spec_scan_result() is Ok,
            r matches Ok(v) ==> {
                let s = self.spec_scan_result().unwrap();
                &&& v@.len() == s.len()
                &&& forall|k: int| 0 <= k < s.len() ==> asset_matches(#[trigger] v@[k], s[k])
            },
            r matches Err(e) ==> self.spec_scan_result() == Result::<
                Seq<(Seq<u8>, Seq<u8>)>,
                DumpError,
            >::Err(e),
    {
        let range = match self.parser.scan_range() {
            Ok(rg) => rg,
            Err(e) => {
                return Err(e);
            },
        };
        let end = if range.start <= usize::MAX - range.length {
            range.start + range.length
        } else {
            usize::MAX
        };
        if end > self.data.len() {
            return Err(DumpError::ScanRange);
        }
        let ghost total = spec_scan(self.parser, self.data@, range.start as int, end as int, 8);
        let mut assets: Vec<Asset> = Vec::new();
        if end < ASSET_HEADER_SIZE {
            proof {
                assert(total =~= Seq::<(Seq<u8>, Seq<u8>)>::empty());
            }
            return Ok(assets);
        }
        let mut offset: usize = range.start;
        let mut step: usize = 8;
        let ghost mut done: Seq<(Seq<u8>, Seq<u8>)> = Seq::empty();
        proof {
            assert(done + total =~= total);
        }
        while offset <= end - ASSET_HEADER_SIZE
            invariant
                step == 8 || step == ASSET_HEADER_SIZE,
                ASSET_HEADER_SIZE <= end <= self.data@.len(),
                total == spec_scan(self.parser, self.data@, range.start as int, end as int, 8),
                done + spec_scan(self.parser, self.data@, offset as int, end as int, step as int)
                    == total,
                assets@.len() == done.len(),
                forall|k: int| 0 <= k < done.len() ==> asset_matches(#[trigger] assets@[k], done[k]),
            decreases end - offset,
        {
            match self.try_parse_asset(offset) {
                Ok(asset) => {
                    proof {
                        let m = spec_try_parse(self.parser, self.data@, offset as int).unwrap();
                        let rest = spec_scan(
                            self.parser,
                            self.data@,
                            offset as int + ASSET_HEADER_SIZE,
                            end as int,
                            ASSET_HEADER_SIZE as int,
                        );
                        assert(spec_scan(
                            self.parser,
                            self.data@,
                            offset as int,
                            end as int,
                            step as int,
                        ) == seq![m] + rest);
                        assert((done + seq![m]) + rest =~= done + (seq![m] + rest));
                        assert(done.push(m) =~= done + seq![m]);
                        done = done.push(m);
                    }
                    assets.push(asset);
                    step = ASSET_HEADER_SIZE;
                },
                Err(_) => {
                },
            }
            offset += step;
        }
        proof {
            assert(spec_scan(self.parser, self.data@, offset as int, end as int, step as int)
                =~= Seq::<(Seq<u8>, Seq<u8>)>::empty());
            assert(done + Seq::<(Seq<u8>, Seq<u8>)>::empty() =~= done);
        }
        Ok(assets)
    }

    /// Reads an asset header from the given offset.
    fn read_header(&self, offset: usize) -> (r: Result<AssetHeader, DumpError>)
        ensures
            r is Ok <==> offset + ASSET_HEADER_SIZE <= self.data@.len(),
            r matches Err(e) ==> e == DumpError::Bounds,
            r matches Ok(h) ==> {
                &&& h.name_ptr == spec_le64_at(self.data@, offset as int)
                &&& h.name_len == spec_le64_at(self.data@, offset as int + 8)
                &&& h.data_ptr == spec_le64_at(self.data@, offset as int + 16)
                &&& h.data_size == spec_le64_at(self.data@, offset as int + 24)
            },
    {
        if offset > self.data.len() || self.data.len() - offset < ASSET_HEADER_SIZE {
            return Err(DumpError::Bounds);
        }
        let s = self.data.as_slice();
        let name_ptr = u64_from_le_bytes(&s[offset..offset + 8]);
        let name_len = u64_from_le_bytes(&s[offset + 8..offset + 16]);
        let data_ptr = u64_from_le_bytes(&s[offset + 16..offset + 24]);
        let data_size = u64_from_le_bytes(&s[offset + 24..offset + 32]);
        Ok(AssetHeader { name_ptr, name_len, data_ptr, data_size })
    }

    /// Validates that the resolved regions lie in bounds, that the name
    /// starts with `/`, and that the data is a valid brotli stream.
    fn validate_pointers(
        &self,
        name_offset: u64,
        name_len: u64,
        data_offset: u64,
        data_size: u64,
    ) -> (r: Result<(), DumpError>)
        ensures
            r is Ok <==> {
                &&& spec_regions_in_bounds(self.data@, name_offset, name_len, data_offset, data_size)
                &&& self.data@[name_offset as int] == 0x2F
                &&& brotli_decoded(
                    self.data@.subrange(
                        data_offset as int,
                        data_offset as int + data_size as int,
                    ),
                ) is Some
            },
            r matches Err(e) ==> e == (if !spec_regions_in_bounds(
                self.data@,
                name_offset,
                name_len,
                data_offset,
                data_size,
            ) {
                DumpError::Bounds
            } else {
                DumpError::Validation
            }),
    {
        let len = self.data.len() as u64;
        if name_offset >= len || name_len > len - name_offset || data_offset >= len || data_size
            > len - data_offset {
            return Err(DumpError::Bounds);
        }
        if self.data[name_offset as usize] != 0x2F {
            return Err(DumpError::Validation);
        }
        let s = self.data.as_slice();
        let region = &s[data_offset as usize..(data_offset + data_size) as usize];
        match self.verify_brotli(region) {
            Ok(_) => Ok(()),
            Err(e) => Err(e),
        }
    }

    /// Verifies that data is valid brotli-compressed content.
    fn verify_brotli(&self, data: &[u8]) -> (r: Result<(), DumpError>)
        ensures
            r is Ok <==> brotli_decoded(data@) is Some,
            r matches Err(e) ==> e == DumpError::Validation,
    {
        match brotli_decompress(data) {
            Ok(_) => Ok(()),
            Err(_) => Err(DumpError::Validation),
        }
    }

    /// Reads the asset name from the given offset.
    fn read_name(&self, offset: usize, len: usize) -> (r: Result<String, DumpError>)
        requires
            offset + len <= self.data@.len(),
        ensures
            r is Ok <==> all_ascii(self.data@.subrange(offset as int, offset as int + len as int)),
            r matches Ok(s) ==> s@ == ascii_to_chars(
                self.data@.subrange(offset as int, offset as int + len as int),
            ),
            r matches Err(e) ==> e == DumpError::Validation,
    {
        let n = self.data.len();
        proof {
            assert(offset + len <= n);
        }
        let s = self.data.as_slice();
        let bytes = &s[offset..offset + len];
        let mut i: usize = 0;
        while i < bytes.len()
            invariant
                0 <= i <= bytes@.len(),
                bytes@ == self.data@.subrange(offset as int, offset as int + len as int),
                forall|j: int| 0 <= j < i ==> (#[trigger] bytes@[j]) < 0x80,
            decreases bytes@.len() - i,
        {
            if bytes[i] >= 0x80 {
                return Err(DumpError::Validation);
            }
            i += 1;
        }
        Ok(string_from_ascii(slice_to_vec(bytes)))
    }

    /// Reads the compressed asset data from the given offset.
    fn read_data(&self, offset: usize, len: usize) -> (r: Vec<u8>)
        requires
            offset + len <= self.data@.len(),
        ensures
            r@ == self.data@.subrange(offset as int, offset as int + len as int),
    {
        let n = self.data.len();
        proof {
            assert(offset + len <= n);
        }
        let s = self.data.as_slice();
        slice_to_vec(&s[offset..offset + len])
    }

    /// Attempts to parse an asset at the given file offset.
    pub fn try_parse_asset(&self, offset: usize) -> (r: Result<Asset, DumpError>)
        ensures
            r matches Ok(a) ==> spec_parse_candidate(self.parser, self.data@, offset as int)
                matches Ok(m) && asset_matches(a, m),
            r matches Err(e) ==> spec_parse_candidate(self.parser, self.data@, offset as int)
                == Result::<(Seq<u8>, Seq<u8>), DumpError>::Err(e),
    {
        let header = match self.read_header(offset) {
            Ok(h) => h,
            Err(e) => {
                return Err(e);
            },
        };
        let name_offset = match self.parser.resolve_pointer(header.name_ptr) {
            Ok(o) => o,
            Err(e) => {
                return Err(e);
            },
        };
        let data_offset = match self.parser.resolve_pointer(header.data_ptr) {
            Ok(o) => o,
            Err(e) => {
                return Err(e);
            },
        };
        match self.validate_pointers(name_offset, header.name_len, data_offset, header.data_size) {
            Ok(_) => (),
            Err(e) => {
                return Err(e);
            },
        };
        let n = self.data.len();
        proof {
            assert(spec_regions_in_bounds(
                self.data@,
                name_offset,
                header.name_len,
                data_offset,
                header.data_size,
            ));
            assert(name_offset + header.name_len <= n);
            assert(data_offset + header.data_size <= n);
        }
        let name = match self.read_name(name_offset as usize, header.name_len as usize) {
            Ok(n) => n,
            Err(e) => {
                return Err(e);
            },
        };
        let data = self.read_data(data_offset as usize, header.data_size as usize);
        Ok(Asset { name, data })
    }

    /// Decompresses an asset's data.
    ///
    /// Fails exactly when the data is not a valid brotli stream; otherwise
    /// returns its full decode.
    pub fn decompress_asset(&self, asset: &Asset) -> (r: Result<Vec<u8>, DumpError>)
        ensures
            r is Ok <==> brotli_decoded(asset.data@) is Some,
            r matches Ok(v) ==> brotli_decoded(asset.data@) == Some(v@),
            r matches Err(e) ==> e == DumpError::Decode,
    {
        brotli_decompress(asset.data.as_slice())
    }
}

/// Every asset a scan yields has been validated: its name bytes are all
/// ASCII, a non-empty name starts with `/`, and its data is a stream the
/// codec probe accepts. Together with `decompress_asset`, whose result is
/// exactly the probe's decode, this gives the round trip for scanned assets.
pub proof fn lemma_scan_results_valid(p: AnyParser, data: Seq<u8>, off: int, end: int, step: int)
    requires
        1 <= step <= ASSET_HEADER_SIZE,
    ensures
        forall|k: int| 0 <= k < spec_scan(p, data, off, end, step).len() ==> {
            let a = #[trigger] spec_scan(p, data, off, end, step)[k];
            &&& all_ascii(a.0)
            &&& a.0.len() > 0 ==> a.0[0] == 0x2F
            &&& brotli_decoded(a.1) is Some
        },
    decreases end - off,
{
    if off + ASSET_HEADER_SIZE > end {
    } else {
        match spec_try_parse(p, data, off) {
            Some(a) => {
                let s = spec_scan(p, data, off, end, step);
                let rest = spec_scan(
                    p,
                    data,
                    off + ASSET_HEADER_SIZE,
                    end,
                    ASSET_HEADER_SIZE as int,
                );
                lemma_scan_results_valid(
                    p,
                    data,
                    off + ASSET_HEADER_SIZE,
                    end,
                    ASSET_HEADER_SIZE as int,
                );
                assert(s == seq![a] + rest);
                assert(a.0.len() > 0 ==> a.0[0] == 0x2F);
                assert forall|k: int| 0 <= k < s.len() implies {
                    let x = #[trigger] s[k];
                    &&& all_ascii(x.0)
                    &&& x.0.len() > 0 ==> x.0[0] == 0x2F
                    &&& brotli_decoded(x.1) is Some
                } by {
                    if k == 0 {
                        assert(s[k] == a);
                    } else {
                        assert(s[k] == rest[k - 1]);
                    }
                }
            },
            None => {
                lemma_scan_results_valid(p, data, off + step, end, step);
            },
        }
    }
}

/// No asset a scan returns has a non-empty name lacking a leading `/` or
/// holding a non-ASCII character, and every returned asset's data passes the
/// codec probe: stated over any values that meet `scan_assets`' contract.
pub proof fn lemma_scan_output_valid(d: &Dumper, v: Seq<Asset>, s: Seq<(Seq<u8>, Seq<u8>)>)
    requires
        d.spec_scan_result() == Result::<Seq<(Seq<u8>, Seq<u8>)>, DumpError>::Ok(s),
        v.len() == s.len(),
        forall|k: int| 0 <= k < s.len() ==> asset_matches(#[trigger] v[k], s[k]),
    ensures
        forall|k: int|
            0 <= k < v.len() ==> ((#[trigger] v[k]).name@.len() > 0 ==> v[k].name@[0] == '/'),
        forall|k: int| 0 <= k < v.len() ==> brotli_decoded((#[trigger] v[k]).data@) is Some,
        forall|k: int| 0 <= k < v.len() ==> chars_all_ascii((#[trigger] v[k]).name@),
{
    match d.parser.spec_scan_range() {
        None => {
        },
        Some(range) => {
            let end = if range.start + range.length > usize::MAX {
                usize::MAX as int
            } else {
                range.start + range.length
            };
            lemma_scan_results_valid(d.parser, d.data@, range.start as int, end, 8);
            assert forall|k: int|
                0 <= k < v.len() implies ((#[trigger] v[k]).name@.len() > 0 ==> v[k].name@[0]
                == '/') by {
                let a = v[k];
                let m = s[k];
                assert(asset_matches(a, m));
                if a.name@.len() > 0 {
                    assert(m.0[0] == 0x2F);
                    assert(a.name@[0] == (0x2Fu8 as char));
                }
            }
            assert forall|k: int|
                0 <= k < v.len() implies brotli_decoded((#[trigger] v[k]).data@) is Some by {
                assert(asset_matches(v[k], s[k]));
            }
            assert forall|k: int| 0 <= k < v.len() implies chars_all_ascii(
                (#[trigger] v[k]).name@,
            ) by {
                let a = v[k];
                let m = s[k];
                assert(asset_matches(a, m));
                assert(all_ascii(m.0));
                assert forall|j: int| 0 <= j < a.name@.len() implies char_code(
                    #[trigger] a.name@[j],
                ) < 0x80 by {
                    assert(a.name@[j] == (m.0[j] as char));
                    assert(m.0[j] < 0x80);
                }
            }
        },
    }
}

/// Parsers of the same content accept the same candidates.
proof fn lemma_try_parse_congruent(p: AnyParser, q: AnyParser, data: Seq<u8>, off: int)
    requires
        crate::binary::spec_same_parser(p, q),
    ensures
        spec_try_parse(p, data, off) == spec_try_parse(q, data, off),
{
    crate::binary::lemma_same_parser_same_behaviour(p, q, spec_le64_at(data, off));
    crate::binary::lemma_same_parser_same_behaviour(p, q, spec_le64_at(data, off + 16));
}

/// Parsers of the same content scan to the same asset list.
proof fn lemma_scan_congruent(
    p: AnyParser,
    q: AnyParser,
    data: Seq<u8>,
    off: int,
    end: int,
    step: int,
)
    requires
        1 <= step <= ASSET_HEADER_SIZE,
        crate::binary::spec_same_parser(p, q),
    ensures
        spec_scan(p, data, off, end, step) == spec_scan(q, data, off, end, step),
    decreases end - off,
{
    if off + ASSET_HEADER_SIZE > end {
    } else {
        lemma_try_parse_congruent(p, q, data, off);
        match spec_try_parse(p, data, off) {
            Some(a) => {
                lemma_scan_congruent(p, q, data, off + ASSET_HEADER_SIZE, end, ASSET_HEADER_SIZE as int);
            },
            None => {
                lemma_scan_congruent(p, q, data, off + step, end, step);
            },
        }
    }
}

/// Determinism: two dumpers holding the same bytes and parsers of the same
/// content determine identical ordered scan outcomes.
pub proof fn lemma_scan_deterministic(d1: &Dumper, d2: &Dumper)
    requires
        d1.data@ == d2.data@,
        crate::binary::spec_same_parser(d1.parser, d2.parser),
    ensures
        d1.spec_scan_result() == d2.spec_scan_result(),
{
    crate::binary::lemma_same_parser_same_behaviour(d1.parser, d2.parser, 0);
    match d1.parser.spec_scan_range() {
        None => {
        },
        Some(range) => {
            let end = if range.start + range.length > usize::MAX {
                usize::MAX as int
            } else {
                range.start + range.length
            };
            if end <= d1.data@.len() {
                lemma_scan_congruent(
                    d1.parser,
                    d2.parser,
                    d1.data@,
                    range.start as int,
                    end,
                    8,
                );
            }
        },
    }
}

/// Determinism from the bytes alone: two dumpers built over the same bytes
/// determine identical ordered scan outcomes.
pub proof fn lemma_scan_of_same_bytes_deterministic(d1: &Dumper, d2: &Dumper, data: Seq<u8>)
    requires
        d1.data@ == data,
        d2.data@ == data,
        spec_parser_matches(d1.parser, data),
        spec_parser_matches(d2.parser, data),
    ensures
        d1.spec_scan_result() == d2.spec_scan_result(),
{
    crate::binary::lemma_parser_matches_unique(d1.parser, d2.parser, data);
    lemma_scan_deterministic(d1, d2);
}

} // verus!
