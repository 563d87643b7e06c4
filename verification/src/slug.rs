//! Slugs: the lower-case, dash-separated form of a name used as a settings key.
use vstd::prelude::*;

verus! {

/// The slug that `slugify::slugify` computes for `s` with no stop words,
/// `-` as separator and no length limit.
pub uninterp spec fn slug_of(s: Seq<char>) -> Seq<char>;

/// Calls `slugify::slugify(s, "", "-", None)`, which transliterates `s` to
/// ASCII, lower-cases it and joins its alphanumeric runs with `-`.  The
/// contract only claims that the result is a function of `s` alone.
#[verifier::external_body]
pub(crate) fn slugify_str(s: &str) -> (res: String)
    ensures
        res@ == slug_of(s@),
{
    slugify::slugify(s, "", "-", None)
}

} // verus!
