//! The name of the output file: the input's name with a suffix put in
//! before its extension.
//!
//! The extension is what follows the last `.` of the file name. A name
//! without a `.`, a name whose only `.` is its first character, and `..`
//! have none.

use vstd::prelude::*;
use vstd::string::*;
use crate::boundary::Strategy;

verus! {

/// Which suffix marks the output.
#[derive(Clone, Copy, Debug, PartialEq, Eq)]
pub enum NameVariant {
    /// `<stem>-cleaned.<ext>`
    Cleaned,
    /// `<stem>-trimmed.<ext>`
    Trimmed,
}

impl NameVariant {
    /// The variant that marks the output of `strategy`: the section-table
    /// strategy cleans, the image-size strategy trims.
    pub open spec fn of(strategy: Strategy) -> NameVariant {
        match strategy {
            Strategy::SectionTable => NameVariant::Cleaned,
            Strategy::ImageSize { .. } => NameVariant::Trimmed,
        }
    }

    /// Computes [`NameVariant::of`].
    pub fn for_strategy(strategy: Strategy) -> (variant: NameVariant)
        ensures
            variant == NameVariant::of(strategy),
    {
        match strategy {
            Strategy::SectionTable => NameVariant::Cleaned,
            Strategy::ImageSize { .. } => NameVariant::Trimmed,
        }
    }

    /// The characters of the suffix.
    pub open spec fn suffix_chars(self) -> Seq<char> {
        match self {
            NameVariant::Cleaned => "-cleaned"@,
            NameVariant::Trimmed => "-trimmed"@,
        }
    }

    /// The suffix that is put in before the extension.
    pub fn suffix(&self) -> (text: &'static str)
        ensures
            text@ == self.suffix_chars(),
    {
        match self {
            NameVariant::Cleaned => "-cleaned",
            NameVariant::Trimmed => "-trimmed",
        }
    }
}

/// The index of the last `.` in `name`, or -1 where there is none.
pub open spec fn last_dot(name: Seq<char>) -> int
    decreases name.len(),
{
    if name.len() == 0 {
        -1
    } else if name.last() == '.' {
        name.len() - 1
    } else {
        last_dot(name.drop_last())
    }
}

/// Whether a file name has an extension.
pub open spec fn has_extension(name: Seq<char>) -> bool {
    &&& last_dot(name) > 0
    &&& !(name.len() == 2 && name[0] == '.')
}

/// The part of the name before its last `.`.
pub open spec fn stem_of(name: Seq<char>) -> Seq<char> {
    name.subrange(0, last_dot(name))
}

/// The part of the name behind its last `.`.
pub open spec fn extension_of(name: Seq<char>) -> Seq<char> {
    name.subrange(last_dot(name) + 1, name.len() as int)
}

/// The output's name for an input named `name`: stem, suffix, `.`,
/// extension. There is none for a name without extension.
pub open spec fn output_name(name: Seq<char>, variant: NameVariant) -> Option<Seq<char>> {
    if has_extension(name) {
        Some(stem_of(name) + variant.suffix_chars() + seq!['.'] + extension_of(name))
    } else {
        None
    }
}

/// [`last_dot`] is the place of a `.` with none behind it, or -1 where the
/// name holds none at all.
pub proof fn lemma_last_dot(name: Seq<char>)
    ensures
        -1 <= last_dot(name) < name.len(),
        last_dot(name) >= 0 ==> name[last_dot(name)] == '.',
        forall|k: int| last_dot(name) < k < name.len() ==> name[k] != '.',
    decreases name.len(),
{
    if name.len() > 0 && name.last() != '.' {
        lemma_last_dot(name.drop_last());
        assert forall|k: int| last_dot(name) < k < name.len() implies name[k] != '.' by {
            if k < name.len() - 1 {
                assert(name.drop_last()[k] == name[k]);
            }
        }
        if last_dot(name) >= 0 {
            assert(name.drop_last()[last_dot(name)] == name[last_dot(name)]);
        }
    }
}

/// A `.` with none behind it is the last one.
pub proof fn lemma_last_dot_is_unique(name: Seq<char>, at: int)
    requires
        -1 <= at < name.len(),
        at >= 0 ==> name[at] == '.',
        forall|k: int| at < k < name.len() ==> name[k] != '.',
    ensures
        at == last_dot(name),
{
    lemma_last_dot(name);
}

/// The output keeps the extension of the input, and its stem is the
/// input's stem with the suffix behind it.
pub proof fn lemma_output_keeps_extension(name: Seq<char>, variant: NameVariant)
    requires
        has_extension(name),
    ensures
        output_name(name, variant) matches Some(out) && extension_of(out) == extension_of(name)
            && stem_of(out) == stem_of(name) + variant.suffix_chars(),
{
    reveal_strlit("-cleaned");
    reveal_strlit("-trimmed");
    lemma_last_dot(name);
    let suffix = variant.suffix_chars();
    let head = stem_of(name) + suffix;
    let out = head + seq!['.'] + extension_of(name);
    assert(suffix.len() == 8);
    assert(forall|k: int| 0 <= k < 8 ==> suffix[k] != '.');
    assert(out[head.len() as int] == '.');
    assert forall|k: int| head.len() < k < out.len() implies out[k] != '.' by {
        assert(out[k] == name[k - suffix.len()]);
    }
    lemma_last_dot_is_unique(out, head.len() as int);
    assert(extension_of(out) =~= extension_of(name));
    assert(stem_of(out) =~= head);
}

/// The name of the output file for an input file named `file_name`, which
/// is the last component of the input's path.
pub fn output_file_name(file_name: &str, variant: NameVariant) -> (out: Option<String>)
    ensures
        match output_name(file_name@, variant) {
            Some(chars) => out is Some && out.unwrap()@ == chars,
            None => out is None,
        },
{
    let len = file_name.unicode_len();
    let mut after: usize = len;
    while after > 0 && file_name.get_char(after - 1) != '.'
        invariant
            len == file_name@.len(),
            after <= len,
            forall|k: int| after <= k < len ==> file_name@[k] != '.',
        decreases after,
    {
        after = after - 1;
    }
    proof {
        lemma_last_dot_is_unique(file_name@, after - 1);
    }
    if after <= 1 || (len == 2 && file_name.get_char(0) == '.') {
        return None;
    }
    let stem = file_name.substring_char(0, after - 1);
    let extension = file_name.substring_char(after, len);
    let mut name = String::from_str(stem);
    name.append(variant.suffix());
    name.append(".");
    name.append(extension);
    proof {
        reveal_strlit(".");
        assert("."@ =~= seq!['.']);
    }
    Some(name)
}

} // verus!
