//! Fresh identifier generation for the working buffer: version-4 UUIDs and
//! CUID2 identifiers. Both are nondeterministic, so only the shape of the
//! output is stated.

use vstd::prelude::*;

verus! {

/// Relies on uuid's `Uuid::new_v4` and its `Display`: a random version-4
/// UUID rendered in the canonical hyphenated lowercase form, which is
/// always 36 characters.
#[verifier::external_body]
pub(crate) fn new_uuid_string() -> (r: String)
    ensures
        r@.len() == 36,
{
    uuid::Uuid::new_v4().to_string()
}

/// Relies on `cuid::cuid2`: a random identifier of one starting letter plus
/// a base-36 hash truncated to 23 characters (so never longer than 24, and
/// never empty).
#[verifier::external_body]
pub(crate) fn new_cuid_string() -> (r: String)
    ensures
        1 <= r@.len() <= 24,
{
    cuid::cuid2()
}

} // verus!
