//! Fresh identifiers for connections.

use vstd::prelude::*;

verus! {

/// Calls `uuid::Uuid::new_v4` and hands the identifier back as a number.
/// The value is random: nothing is claimed of it.
#[verifier::external_body]
pub(crate) fn fresh_uuid() -> (r: u128) {
    uuid::Uuid::new_v4().as_u128()
}

} // verus!
