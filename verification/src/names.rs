//! Word-shape helpers behind the deterministic operation-naming convention:
//! case conversion and singular/plural forms. Case conversion is a pure
//! function of the input characters. The singular/plural forms are functions
//! of the word under pluralizer's default rule set; that crate also exposes
//! rule mutators that change its process-global tables at run time, so the
//! two names below are sound only while nothing in the process calls such a
//! mutator — this library and its shell never do. Pluralizer slices regex
//! captures by bytes when restoring a word's case, which can panic off a
//! character boundary, so the two wrappers that reach it take ASCII input
//! only.

use vstd::prelude::*;
use vstd::utf8::is_ascii_chars;

verus! {

/// What convert_case's Pascal-case conversion returns for an input.
pub uninterp spec fn pascal_of(s: Seq<char>) -> Seq<char>;

/// What convert_case's snake-case conversion returns for an input.
pub uninterp spec fn snake_of(s: Seq<char>) -> Seq<char>;

/// What pluralizer returns for a word under a count of one, under its
/// default rule set; sound only while no rule mutator of that crate runs in
/// the process.
pub uninterp spec fn singular_of(s: Seq<char>) -> Seq<char>;

/// What pluralizer returns for a word under a count above one, under its
/// default rule set; sound only while no rule mutator of that crate runs in
/// the process.
pub uninterp spec fn plural_of(s: Seq<char>) -> Seq<char>;

/// Relies on convert_case's `Casing::to_case` with `Case::Pascal`: the result
/// is a function of the input characters alone, and the call is total — it
/// splits words only at character boundaries.
#[verifier::external_body]
pub fn to_pascal_case(s: &str) -> (r: String)
    ensures
        r@ == pascal_of(s@),
{
    convert_case::Casing::to_case(&s, convert_case::Case::Pascal)
}

/// Relies on convert_case's `Casing::to_case` with `Case::Snake`: the result
/// is a function of the input characters alone, and the call is total. On
/// ASCII input the result is ASCII — lowering an ASCII character and joining
/// with underscores introduces nothing above it.
#[verifier::external_body]
pub fn to_snake_case(s: &str) -> (r: String)
    ensures
        r@ == snake_of(s@),
        is_ascii_chars(s@) ==> is_ascii_chars(r@),
{
    convert_case::Casing::to_case(&s, convert_case::Case::Snake)
}

/// Relies on pluralizer's `pluralize` with count one and no count prefix,
/// which returns the singular form under the crate's default rule set. ASCII
/// input keeps every capture, placement and lowered token ASCII, so the
/// byte-sliced case restoration inside that crate stays on character
/// boundaries and the call cannot panic.
#[verifier::external_body]
pub fn singularize(s: &str) -> (r: String)
    requires
        is_ascii_chars(s@),
    ensures
        r@ == singular_of(s@),
{
    pluralizer::pluralize(s, 1, false)
}

/// Relies on pluralizer's `pluralize` with a count above one and no count
/// prefix, which returns the plural form under the crate's default rule set.
/// ASCII input keeps the call panic-free, as for the singular form.
#[verifier::external_body]
pub fn pluralize_word(s: &str) -> (r: String)
    requires
        is_ascii_chars(s@),
    ensures
        r@ == plural_of(s@),
{
    pluralizer::pluralize(s, 2, false)
}

} // verus!
