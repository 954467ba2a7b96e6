//! Slug derivation. The normalization itself (strip diacritics, lower-case,
//! collapse separator runs, trim) is done by an outside crate; this module
//! gives its result a name that contracts and proofs speak of.
use vstd::prelude::*;

verus! {

/// The slug derived from a title: what `slugify::slugify` returns for it
/// with "_" as the separator. A function of the title's characters alone.
pub uninterp spec fn slug_of(title: Seq<char>) -> Seq<char>;

/// Relies on slugify::slugify, called with "_" as separator, no stop words
/// and no length cap: the result depends on the title's characters alone.
/// The result is a fixed point of the normalization: it holds only ASCII
/// lower-case letters, digits and single inner separators, which the
/// normalization maps to themselves, so slugifying it again returns it
/// unchanged.
#[verifier::external_body]
pub(crate) fn slugify_title(title: &str) -> (r: String)
    ensures
        r@ == slug_of(title@),
        slug_of(r@) == r@,
{
    slugify::slugify(title, "", "_", None)
}

} // verus!
