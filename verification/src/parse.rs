//! From a byte buffer to a boundary: parsing with `goblin`, then the checks
//! and the resolution that follow.

use vstd::prelude::*;
use crate::boundary::{ResolveError, Strategy, resolve, resolved};
use crate::image::{CoffHeader, FormatError, OptionalHeader, ParsedPe, PeView, Section};

verus! {

/// The error type of `goblin`, `goblin::error::Error`. Values of it are
/// carried through and never looked into.
#[verifier::external_type_specification]
#[verifier::external_body]
pub struct ExGoblinError(goblin::error::Error);

/// The 16-bit number that stands at offset `at`, low byte first.
pub open spec fn le16(bytes: Seq<u8>, at: int) -> int {
    bytes[at] + 0x100 * bytes[at + 1]
}

/// The 32-bit number that stands at offset `at`, low byte first.
pub open spec fn le32(bytes: Seq<u8>, at: int) -> int {
    le16(bytes, at) + 0x1_0000 * le16(bytes, at + 2)
}

/// Where the buffer says that its `PE` signature stands.
pub open spec fn pe_pointer(bytes: Seq<u8>) -> int {
    le32(bytes, 0x3c)
}

/// Whether the buffer starts with `MZ`, and holds the `PE` signature and a
/// whole COFF file header at the place that its offset `0x3c` names.
pub open spec fn is_framed(bytes: Seq<u8>) -> bool {
    &&& bytes.len() >= 0x40
    &&& bytes[0] == 0x4d
    &&& bytes[1] == 0x5a
    &&& pe_pointer(bytes) + 24 <= bytes.len()
    &&& le32(bytes, pe_pointer(bytes)) == 0x4550
}

/// The number of sections that the COFF file header gives.
pub open spec fn section_count(bytes: Seq<u8>) -> int {
    le16(bytes, pe_pointer(bytes) + 6)
}

/// Where entry `i` of the section table stands: the table follows the
/// optional header, whose size the COFF file header gives, and an entry has
/// 40 bytes.
pub open spec fn section_entry_at(bytes: Seq<u8>, i: int) -> int {
    pe_pointer(bytes) + 24 + le16(bytes, pe_pointer(bytes) + 20) + 40 * i
}

/// Whether entry `i` of the section table lies in the buffer and its
/// virtual address and virtual size add up to more than 32 bits hold.
pub open spec fn section_extent_overflows(bytes: Seq<u8>, i: int) -> bool {
    &&& section_entry_at(bytes, i) + 40 <= bytes.len()
    &&& le32(bytes, section_entry_at(bytes, i) + 8) + le32(bytes, section_entry_at(bytes, i) + 12)
        > u32::MAX
}

/// Whether a framed buffer has a section whose extent overflows.
pub open spec fn has_overflowing_section(bytes: Seq<u8>) -> bool {
    &&& is_framed(bytes)
    &&& exists|i: int| 0 <= i < section_count(bytes) && #[trigger] section_extent_overflows(bytes, i)
}

/// Whether the addresses of this build have 64 bits.
pub open spec fn addresses_are_wide() -> bool {
    usize::BITS == 64
}

/// What `goblin` makes of a byte buffer: the model of the parsed image, or
/// `None` where it rejects the bytes. The parser reads nothing but the
/// buffer, so the same bytes always give the same answer.
pub uninterp spec fn parsed_image(bytes: Seq<u8>) -> Option<PeView>;

/// Parses `bytes` with `goblin::pe::PE::parse` and keeps the header fields
/// and section-table entries that this library reads.
///
/// The parser adds numbers of the headers without a check, and a build
/// with overflow checks panics where such a sum does not fit. Three things
/// keep those sums out of reach:
///
/// * `requires` leaves out builds whose addresses have fewer than 64 bits,
///   where sums of file offsets, taken as addresses, may not fit.
/// * The manifest enables `max_level_off` and `release_max_level_off` of the
///   `log` crate. Its static maximum level is then `Off` in every build, and
///   no argument of a logging call of the parser is ever evaluated,
///   whatever logger the program installs.
/// * `requires` leaves out a section whose virtual address and virtual size
///   do not add up in 32 bits: the one sum of two header fields that the
///   parser's debug lines take while it looks an address up in the section
///   table.
///
/// Taken on trust: that on every other buffer the parser returns, and that
/// its answer is [`parsed_image`] of the bytes. Nothing is claimed of what
/// that answer is.
#[verifier::external_body]
fn parse_image(bytes: &[u8]) -> (parsed: Result<ParsedPe, goblin::error::Error>)
    requires
        addresses_are_wide(),
        !has_overflowing_section(bytes@),
    ensures
        match parsed {
            Ok(pe) => parsed_image(bytes@) == Some(pe@),
            Err(_) => parsed_image(bytes@) is None,
        },
{
    let pe = goblin::pe::PE::parse(bytes)?;
    let coff = pe.header.coff_header;
    let coff = CoffHeader::new(coff.machine, coff.number_of_sections, coff.time_date_stamp);
    let optional_header = pe.header.optional_header.map(|h| h.windows_fields).map(|w| {
        OptionalHeader::new(w.subsystem, w.image_base, w.size_of_image, w.size_of_headers)
    });
    let entries = pe.sections.iter();
    let sections = entries
        .map(|s| Section::new(s.name, s.pointer_to_raw_data, s.size_of_raw_data))
        .collect();
    Ok(ParsedPe { coff, optional_header, sections })
}

/// The parser's account of why it rejected a buffer.
///
/// Calls `to_string` on the error, which formats it by the `Display` impl
/// of `goblin::error::Error`. Nothing is claimed of the text.
#[verifier::external_body]
fn rejection_text(error: &goblin::error::Error) -> (text: String) {
    error.to_string()
}

/// Reads the 16-bit number at offset `at`.
fn read16(raw: &[u8], at: usize) -> (value: u16)
    requires
        at + 2 <= raw@.len(),
    ensures
        value == le16(raw@, at as int),
{
    let low: u16 = raw[at] as u16;
    let high: u16 = raw[at + 1] as u16;
    low + 0x100 * high
}

/// Reads the 32-bit number at offset `at`.
fn read32(raw: &[u8], at: usize) -> (value: u32)
    requires
        at + 4 <= raw@.len(),
    ensures
        value == le32(raw@, at as int),
{
    assert(raw.len() <= usize::MAX);
    let low: u32 = read16(raw, at) as u32;
    let high: u32 = read16(raw, at + 2) as u32;
    low + 0x1_0000 * high
}

/// Looks for a section whose virtual address and virtual size do not add
/// up in 32 bits. Only a framed buffer is searched, and only the entries
/// that lie in it.
pub fn sections_overflow(raw: &[u8]) -> (found: bool)
    ensures
        found == has_overflowing_section(raw@),
{
    let len: usize = raw.len();
    if len < 0x40 || raw[0] != 0x4d || raw[1] != 0x5a {
        return false;
    }
    let pointer: u32 = read32(raw, 0x3c);
    if pointer as u64 + 24 > len as u64 {
        return false;
    }
    let pointer: usize = pointer as usize;
    if read32(raw, pointer) != 0x4550 {
        return false;
    }
    let count: u64 = read16(raw, pointer + 6) as u64;
    let table: u64 = pointer as u64 + 24 + read16(raw, pointer + 20) as u64;
    let mut index: u64 = 0;
    while index < count && table + 40 * index + 40 <= len as u64
        invariant
            is_framed(raw@),
            len == raw@.len(),
            count == section_count(raw@),
            table == section_entry_at(raw@, 0),
            index <= count,
            forall|i: int| 0 <= i < index ==> !#[trigger] section_extent_overflows(raw@, i),
        decreases count - index,
    {
        let entry: usize = (table + 40 * index) as usize;
        let size: u64 = read32(raw, entry + 8) as u64;
        let address: u64 = read32(raw, entry + 12) as u64;
        if size + address > 0xffff_ffff {
            assert(section_extent_overflows(raw@, index as int));
            return true;
        }
        index = index + 1;
    }
    assert forall|i: int| 0 <= i < count implies !#[trigger] section_extent_overflows(raw@, i) by {
        if i >= index {
            assert(section_entry_at(raw@, i) >= section_entry_at(raw@, index as int));
        }
    }
    false
}

/// Whether an image has the headers that `strategy` reads.
pub open spec fn admissible(pe: PeView, strategy: Strategy) -> bool {
    strategy.reads_optional_header() ==> pe.optional_header is Some
}

/// What [`load`] makes of a buffer.
pub enum Verdict {
    /// The parser accepts the bytes, and the image suits the strategy.
    Accepted(PeView),
    /// The parser rejects the bytes.
    NotAPEFile,
    /// A section's extent overflows, or the image does not suit the strategy.
    MalformedHeader,
    /// The parser cannot be called in this build.
    UnsupportedTarget,
}

/// The verdict on `bytes` for `strategy`.
pub open spec fn verdict(bytes: Seq<u8>, strategy: Strategy) -> Verdict {
    if !addresses_are_wide() {
        Verdict::UnsupportedTarget
    } else if has_overflowing_section(bytes) {
        Verdict::MalformedHeader
    } else {
        match parsed_image(bytes) {
            None => Verdict::NotAPEFile,
            Some(pe) => if admissible(pe, strategy) {
                Verdict::Accepted(pe)
            } else {
                Verdict::MalformedHeader
            },
        }
    }
}

/// What [`boundary_of`] answers for a parsed image.
pub open spec fn boundary(pe: PeView, raw: Seq<u8>, strategy: Strategy) -> Result<
    int,
    FormatError,
> {
    match resolved(pe, raw, strategy) {
        Ok(b) => Ok(b),
        Err(ResolveError::MissingOptionalHeader) => Err(FormatError::MalformedHeader),
    }
}

/// Accepts a parsed image for `strategy`, or rejects it as malformed where
/// it lacks a header that the strategy reads.
pub fn accept(pe: ParsedPe, strategy: Strategy) -> (outcome: Result<ParsedPe, FormatError>)
    ensures
        admissible(pe@, strategy) ==> outcome == Ok::<ParsedPe, FormatError>(pe),
        !admissible(pe@, strategy) ==> outcome == Err::<ParsedPe, FormatError>(
            FormatError::MalformedHeader,
        ),
{
    if strategy.needs_optional_header() && pe.optional_header.is_none() {
        Err(FormatError::MalformedHeader)
    } else {
        Ok(pe)
    }
}

/// Parses a byte buffer for use with `strategy`.
///
/// Bytes that the parser does not recognize are [`FormatError::NotAPEFile`],
/// with the parser's own words. A buffer with a section whose extent
/// overflows is [`FormatError::MalformedHeader`] and never reaches the
/// parser; so is an image without a header that the strategy reads.
pub fn load(raw: &[u8], strategy: Strategy) -> (outcome: Result<ParsedPe, FormatError>)
    ensures
        match verdict(raw@, strategy) {
            Verdict::Accepted(pe) => outcome matches Ok(loaded) && loaded@ == pe,
            Verdict::NotAPEFile => outcome matches Err(e) && e is NotAPEFile,
            Verdict::MalformedHeader => outcome matches Err(e) && e is MalformedHeader,
            Verdict::UnsupportedTarget => outcome matches Err(e) && e is UnsupportedTarget,
        },
{
    if usize::BITS != 64 {
        return Err(FormatError::UnsupportedTarget);
    }
    if sections_overflow(raw) {
        return Err(FormatError::MalformedHeader);
    }
    match parse_image(raw) {
        Ok(pe) => accept(pe, strategy),
        Err(error) => Err(FormatError::NotAPEFile(rejection_text(&error))),
    }
}

/// The boundary of `raw`, whose parsed form is `pe`, with the resolver's
/// failure reported as a malformed header.
pub fn boundary_of(pe: &ParsedPe, raw: &[u8], strategy: Strategy) -> (outcome: Result<
    usize,
    FormatError,
>)
    ensures
        match boundary(pe@, raw@, strategy) {
            Ok(b) => outcome matches Ok(found) && found == b && b <= raw@.len(),
            Err(e) => outcome == Err::<usize, FormatError>(e),
        },
{
    match resolve(pe, raw, strategy) {
        Ok(b) => Ok(b),
        Err(ResolveError::MissingOptionalHeader) => Err(FormatError::MalformedHeader),
    }
}

/// Parses `raw` and resolves its boundary under `strategy`.
pub fn locate_boundary(raw: &[u8], strategy: Strategy) -> (outcome: Result<usize, FormatError>)
    ensures
        match verdict(raw@, strategy) {
            Verdict::Accepted(pe) => resolved(pe, raw@, strategy) matches Ok(b) && outcome matches Ok(
                found,
            ) && found == b && b <= raw@.len(),
            Verdict::NotAPEFile => outcome matches Err(e) && e is NotAPEFile,
            Verdict::MalformedHeader => outcome matches Err(e) && e is MalformedHeader,
            Verdict::UnsupportedTarget => outcome matches Err(e) && e is UnsupportedTarget,
        },
{
    match load(raw, strategy) {
        Ok(pe) => boundary_of(&pe, raw, strategy),
        Err(e) => Err(e),
    }
}

} // verus!
