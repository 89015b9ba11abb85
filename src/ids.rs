//! Identifiers of connections and messages.
use uuid::Uuid;
use vstd::prelude::*;

verus! {

/// Relies on `uuid::Uuid::new_v4` and `Uuid::as_u128`: a random identifier, as its
/// 128-bit value. Nothing is known of the value.
#[verifier::external_body]
pub(crate) fn fresh_id() -> (r: u128) {
    Uuid::new_v4().as_u128()
}

} // verus!
