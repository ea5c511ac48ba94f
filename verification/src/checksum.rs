//! The number that the header report shows as its checksum.
//!
//! It is the sum of the raw sizes of all sections, kept in 32 bits. It is
//! not the checksum that a loader verifies.

use vstd::prelude::*;
use vstd::arithmetic::div_mod::{lemma_add_mod_noop, lemma_small_mod};
use crate::image::{ParsedPe, Section};

verus! {

/// The raw sizes of all sections, added up.
pub open spec fn total_raw_size(sections: Seq<Section>) -> int
    decreases sections.len(),
{
    if sections.len() == 0 {
        0
    } else {
        total_raw_size(sections.drop_last()) + sections.last().raw_size
    }
}

/// With another section in place `at`, the total differs by the difference
/// of the two raw sizes.
pub proof fn lemma_total_after_update(sections: Seq<Section>, at: int, other: Section)
    requires
        0 <= at < sections.len(),
    ensures
        total_raw_size(sections.update(at, other)) == total_raw_size(sections)
            - sections[at].raw_size + other.raw_size,
    decreases sections.len(),
{
    let changed = sections.update(at, other);
    if at == sections.len() - 1 {
        assert(changed.drop_last() =~= sections.drop_last());
    } else {
        lemma_total_after_update(sections.drop_last(), at, other);
        assert(changed.drop_last() =~= sections.drop_last().update(at, other));
    }
}

/// The total does not depend on the order of the table: with two sections
/// exchanged it is the same.
pub proof fn lemma_total_ignores_order(sections: Seq<Section>, first: int, second: int)
    requires
        0 <= first < sections.len(),
        0 <= second < sections.len(),
    ensures
        total_raw_size(sections.update(first, sections[second]).update(second, sections[first]))
            == total_raw_size(sections),
{
    lemma_total_after_update(sections, first, sections[second]);
    lemma_total_after_update(sections.update(first, sections[second]), second, sections[first]);
}

/// The sum of the raw sizes of all sections, modulo 2^32.
pub fn calculate_checksum(pe: &ParsedPe) -> (sum: u32)
    ensures
        sum == total_raw_size(pe@.sections) % 0x1_0000_0000,
{
    let mut sum: u32 = 0;
    let mut index: usize = 0;
    while index < pe.sections.len()
        invariant
            index <= pe.sections@.len(),
            sum == total_raw_size(pe.sections@.subrange(0, index as int)) % 0x1_0000_0000,
        decreases pe.sections@.len() - index,
    {
        let size: u32 = pe.sections[index].raw_size;
        proof {
            let before = pe.sections@.subrange(0, index as int);
            let now = pe.sections@.subrange(0, index + 1);
            assert(now.drop_last() =~= before);
            lemma_add_mod_noop(total_raw_size(before), size as int, 0x1_0000_0000);
            lemma_small_mod(size as nat, 0x1_0000_0000);
        }
        sum = sum.wrapping_add(size);
        index = index + 1;
    }
    assert(pe.sections@.subrange(0, index as int) =~= pe.sections@);
    sum
}

} // verus!
