//! Random identifiers, provided by the `uuid` crate.
use vstd::prelude::*;

verus! {

/// `uuid::Uuid::new_v4().to_string()`: a random version-4 UUID in
/// hyphenated form. The value is random, so nothing is claimed of it.
#[verifier::external_body]
pub(crate) fn new_uuid() -> (r: String) {
    uuid::Uuid::new_v4().to_string()
}

} // verus!
