//! Fresh identifiers for sessions, peers and stored blobs.

use vstd::prelude::*;

verus! {

/// Relies on `uuid::Uuid::new_v4` and its `Display` impl: a fresh random
/// identifier, printed in the hyphenated form, which is 36 ASCII
/// characters.  The value is random, so nothing more is promised.
#[verifier::external_body]
pub(crate) fn fresh_uuid() -> (r: String)
    ensures
        r@.len() == 36,
{
    uuid::Uuid::new_v4().to_string()
}

} // verus!
