//! Where the genuine content of an image ends.
//!
//! Two strategies are offered, and they can disagree:
//!
//! * [`Strategy::SectionTable`]: the largest `file_offset + raw_size` that a
//!   section claims, or the size of the headers where there is no section.
//! * [`Strategy::ImageSize`]: the size of the image, or the end of the last
//!   byte that is not padding, whichever is smaller.
//!
//! Either way the boundary never lies behind the end of the buffer.

use vstd::prelude::*;
use rayon::iter::{IntoParallelRefIterator, ParallelIterator};
use crate::image::{OptionalHeader, ParsedPe, PeView, Section};

verus! {

/// The padding byte that was seen in the wild. It is a default, not a rule.
pub const DEFAULT_PADDING: u8 = 0x30;

/// How the boundary is determined.
#[derive(Clone, Copy, Debug, PartialEq, Eq)]
pub enum Strategy {
    /// Trust the section table.
    SectionTable,
    /// Trust the image size, and cut trailing bytes equal to `padding`.
    ImageSize { padding: u8 },
}

/// Why no boundary could be resolved.
#[derive(Clone, Copy, Debug, PartialEq, Eq, Structural)]
pub enum ResolveError {
    /// The strategy reads the optional header, and the image has none.
    MissingOptionalHeader,
}

impl Strategy {
    /// Whether the strategy cannot do without the optional header.
    pub open spec fn reads_optional_header(self) -> bool {
        self is ImageSize
    }

    /// Computes [`Strategy::reads_optional_header`].
    pub fn needs_optional_header(&self) -> (needs: bool)
        ensures
            needs == self.reads_optional_header(),
    {
        match self {
            Strategy::SectionTable => false,
            Strategy::ImageSize { .. } => true,
        }
    }
}

/// The smaller of two numbers.
pub open spec fn smaller(a: int, b: int) -> int {
    if a <= b {
        a
    } else {
        b
    }
}

/// `m` is the largest end that a section of the table claims.
pub open spec fn is_max_raw_end(m: int, sections: Seq<Section>) -> bool {
    &&& exists|i: int| 0 <= i < sections.len() && #[trigger] sections[i].raw_end() == m
    &&& forall|i: int| 0 <= i < sections.len() ==> #[trigger] sections[i].raw_end() <= m
}

/// The largest end that a section claims; 0 for an empty table.
pub open spec fn max_raw_end(sections: Seq<Section>) -> int
    decreases sections.len(),
{
    if sections.len() == 0 {
        0
    } else {
        let rest = max_raw_end(sections.drop_last());
        if sections.last().raw_end() > rest {
            sections.last().raw_end()
        } else {
            rest
        }
    }
}

/// The size of the headers, or 0 where the optional header is absent.
pub open spec fn headers_end(header: Option<OptionalHeader>) -> int {
    match header {
        Some(h) => h.size_of_headers as int,
        None => 0,
    }
}

/// The end of the content as the section table has it, before clamping.
pub open spec fn section_table_end(pe: PeView) -> int {
    if pe.sections.len() > 0 {
        max_raw_end(pe.sections)
    } else {
        headers_end(pe.optional_header)
    }
}

/// The offset behind the last byte that differs from `padding`; 0 where
/// every byte is padding or there is none.
pub open spec fn padding_start(raw: Seq<u8>, padding: u8) -> int
    decreases raw.len(),
{
    if raw.len() > 0 && raw.last() == padding {
        padding_start(raw.drop_last(), padding)
    } else {
        raw.len() as int
    }
}

/// The boundary of `raw` under `strategy`.
pub open spec fn resolved(pe: PeView, raw: Seq<u8>, strategy: Strategy) -> Result<
    int,
    ResolveError,
> {
    match strategy {
        Strategy::SectionTable => Ok(smaller(section_table_end(pe), raw.len() as int)),
        Strategy::ImageSize { padding } => match pe.optional_header {
            Some(h) => Ok(smaller(h.size_of_image as int, padding_start(raw, padding))),
            None => Err(ResolveError::MissingOptionalHeader),
        },
    }
}

/// On a table that is not empty, [`max_raw_end`] is the maximum: some
/// section claims it and none claims more.
pub proof fn lemma_max_raw_end_is_maximum(sections: Seq<Section>)
    requires
        sections.len() > 0,
    ensures
        is_max_raw_end(max_raw_end(sections), sections),
    decreases sections.len(),
{
    let front = sections.drop_last();
    let m = max_raw_end(sections);
    if front.len() == 0 {
        assert(max_raw_end(front) == 0);
        assert(sections[0].raw_end() == m);
    } else {
        lemma_max_raw_end_is_maximum(front);
        let i = choose|i: int| 0 <= i < front.len() && #[trigger] front[i].raw_end() == max_raw_end(front);
        assert(front[i] == sections[i]);
        if sections.last().raw_end() > max_raw_end(front) {
            assert(sections[sections.len() - 1].raw_end() == m);
        } else {
            assert(sections[i].raw_end() == m);
        }
        assert forall|k: int| 0 <= k < sections.len() implies #[trigger] sections[k].raw_end()
            <= m by {
            if k < front.len() {
                assert(front[k] == sections[k]);
            }
        }
    }
}

/// A table has one maximum only.
pub proof fn lemma_maximum_is_unique(m: int, sections: Seq<Section>)
    requires
        is_max_raw_end(m, sections),
    ensures
        sections.len() > 0,
        m == max_raw_end(sections),
{
    lemma_max_raw_end_is_maximum(sections);
}

/// With a section table that is not empty, the boundary of the
/// section-table strategy is the maximum of `file_offset + raw_size` over
/// the sections, clamped to the length of the buffer.
pub proof fn lemma_section_table_boundary(pe: PeView, raw: Seq<u8>, m: int)
    requires
        is_max_raw_end(m, pe.sections),
    ensures
        resolved(pe, raw, Strategy::SectionTable) == Ok::<int, ResolveError>(
            if m > raw.len() {
                raw.len() as int
            } else {
                m
            },
        ),
{
    lemma_maximum_is_unique(m, pe.sections);
}

/// With an empty section table, the section-table strategy falls back to
/// the size of the headers, or to 0 where the optional header is absent;
/// clamped like every boundary.
pub proof fn lemma_empty_table_falls_back(pe: PeView, raw: Seq<u8>)
    requires
        pe.sections.len() == 0,
    ensures
        resolved(pe, raw, Strategy::SectionTable) == Ok::<int, ResolveError>(
            match pe.optional_header {
                Some(h) => smaller(h.size_of_headers as int, raw.len() as int),
                None => 0,
            },
        ),
{
}

/// What the backward scan finds: everything from the offset on is padding,
/// and the byte before it, if there is one, is not.
pub proof fn lemma_padding_start(raw: Seq<u8>, padding: u8)
    ensures
        0 <= padding_start(raw, padding) <= raw.len(),
        forall|k: int| padding_start(raw, padding) <= k < raw.len() ==> raw[k] == padding,
        padding_start(raw, padding) > 0 ==> raw[padding_start(raw, padding) - 1] != padding,
    decreases raw.len(),
{
    if raw.len() > 0 && raw.last() == padding {
        lemma_padding_start(raw.drop_last(), padding);
        let start = padding_start(raw, padding);
        assert forall|k: int| start <= k < raw.len() implies raw[k] == padding by {
            if k < raw.len() - 1 {
                assert(raw.drop_last()[k] == raw[k]);
            }
        }
        if start > 0 {
            assert(raw.drop_last()[start - 1] == raw[start - 1]);
        }
    }
}

/// The scan has one answer only: an offset with padding behind it and
/// another byte before it is the one that [`padding_start`] gives.
pub proof fn lemma_padding_start_is_unique(raw: Seq<u8>, padding: u8, end: int)
    requires
        0 <= end <= raw.len(),
        forall|k: int| end <= k < raw.len() ==> raw[k] == padding,
        end > 0 ==> raw[end - 1] != padding,
    ensures
        end == padding_start(raw, padding),
{
    lemma_padding_start(raw, padding);
    let start = padding_start(raw, padding);
    if start < end {
        assert(raw[end - 1] == padding);
    }
    if end < start {
        assert(raw[start - 1] == padding);
    }
}

/// Whatever the image and the strategy, a boundary lies inside the buffer.
pub proof fn lemma_boundary_in_range(pe: PeView, raw: Seq<u8>, strategy: Strategy)
    ensures
        resolved(pe, raw, strategy) matches Ok(b) ==> 0 <= b <= raw.len(),
{
    match strategy {
        Strategy::SectionTable => {
            if pe.sections.len() > 0 {
                lemma_max_raw_end_is_maximum(pe.sections);
            }
        },
        Strategy::ImageSize { padding } => {
            lemma_padding_start(raw, padding);
        },
    }
}

/// A buffer that holds nothing but padding resolves to 0 under the
/// image-size strategy: that is a boundary, not an error.
pub proof fn lemma_all_padding_resolves_to_zero(pe: PeView, raw: Seq<u8>, padding: u8)
    requires
        pe.optional_header is Some,
        forall|k: int| 0 <= k < raw.len() ==> raw[k] == padding,
    ensures
        resolved(pe, raw, Strategy::ImageSize { padding }) == Ok::<int, ResolveError>(0),
{
    lemma_padding_start_is_unique(raw, padding, 0);
}

/// The largest end offset of the table, found by `rayon`.
///
/// Calls `par_iter().map(..).max()` of `rayon`'s `ParallelIterator`. `map`
/// applies [`Section::end_offset`] to each section; `max` is documented to
/// return `None` for an iterator without items and otherwise `Some` of the
/// maximum of all the items. On integers the maximum does not depend on the
/// order in which the threads reduce the items. This contract is taken on
/// trust. Like an allocation, the start of `rayon`'s pool can fail where the
/// system gives it no thread; nothing is said of that.
#[verifier::external_body]
fn par_max_end(sections: &[Section]) -> (found: Option<u64>)
    ensures
        sections@.len() == 0 ==> found is None,
        sections@.len() > 0 ==> found is Some && is_max_raw_end(
            found.unwrap() as int,
            sections@,
        ),
{
    sections.par_iter().map(|section| section.end_offset()).max()
}

/// The end of the content as the section table claims it: the largest end
/// of a section, or the size of the headers where the table is empty, or 0
/// where the optional header is absent too. It may lie behind the end of
/// the file, so it stays inside this module.
fn claimed_end(pe: &ParsedPe) -> (end: u64)
    ensures
        end == section_table_end(pe@),
{
    let size_of_headers: u64 = match pe.optional_header {
        Some(h) => h.size_of_headers as u64,
        None => 0,
    };
    match par_max_end(pe.sections.as_slice()) {
        Some(m) => {
            proof {
                lemma_maximum_is_unique(m as int, pe.sections@);
            }
            m
        },
        None => size_of_headers,
    }
}

/// The end of the last section in a file of `raw_len` bytes: the largest
/// end that a section claims, or the size of the headers where the table is
/// empty, or 0 where the optional header is absent too; and never more than
/// `raw_len`.
pub fn find_last_section_end(pe: &ParsedPe, raw_len: usize) -> (end: usize)
    ensures
        end == smaller(section_table_end(pe@), raw_len as int),
        end <= raw_len,
{
    clamp_to_len(claimed_end(pe), raw_len)
}

/// Scans `raw` backward from its end for a byte that is not `padding`.
pub fn scan_padding(raw: &[u8], padding: u8) -> (end: usize)
    ensures
        end == padding_start(raw@, padding),
        end <= raw@.len(),
        forall|k: int| end <= k < raw@.len() ==> raw@[k] == padding,
        end > 0 ==> raw@[end - 1] != padding,
{
    let mut end: usize = raw.len();
    while end > 0 && raw[end - 1] == padding
        invariant
            end <= raw@.len(),
            forall|k: int| end <= k < raw@.len() ==> raw@[k] == padding,
        decreases end,
    {
        end = end - 1;
    }
    proof {
        lemma_padding_start_is_unique(raw@, padding, end as int);
    }
    end
}

/// Clamps an offset to the length of the buffer.
pub fn clamp_to_len(offset: u64, raw_len: usize) -> (clamped: usize)
    ensures
        clamped == smaller(offset as int, raw_len as int),
{
    if offset >= raw_len as u64 {
        raw_len
    } else {
        offset as usize
    }
}

/// Resolves the boundary of `raw`, whose parsed form is `pe`.
///
/// Fails only under [`Strategy::ImageSize`], where the optional header is
/// absent. An empty buffer, an empty section table, an image size of 0 and
/// a buffer of padding all resolve to a boundary.
pub fn resolve(pe: &ParsedPe, raw: &[u8], strategy: Strategy) -> (outcome: Result<
    usize,
    ResolveError,
>)
    ensures
        match resolved(pe@, raw@, strategy) {
            Ok(boundary) => outcome matches Ok(found) && found == boundary && 0 <= boundary
                <= raw@.len(),
            Err(e) => outcome == Err::<usize, ResolveError>(e),
        },
{
    proof {
        lemma_boundary_in_range(pe@, raw@, strategy);
    }
    match strategy {
        Strategy::SectionTable => Ok(find_last_section_end(pe, raw.len())),
        Strategy::ImageSize { padding } => match pe.optional_header {
            Some(h) => {
                let scanned = scan_padding(raw, padding);
                Ok(clamp_to_len(h.size_of_image as u64, scanned))
            },
            None => Err(ResolveError::MissingOptionalHeader),
        },
    }
}

} // verus!
