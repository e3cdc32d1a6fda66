//! Assignment identifiers.

use vstd::prelude::*;

verus! {

/// The identifier of an assignment: the 128 bits of a UUID.
#[derive(Clone, Copy, PartialEq, Eq, Structural, Debug, Hash)]
pub struct Id {
    pub value: u128,
}

/// Relies on uuid's `Uuid::new_v4` and `Uuid::as_u128`: a random version 4
/// UUID, so nothing is promised of its bits.
#[verifier::external_body]
pub(crate) fn random_id() -> Id {
    Id { value: uuid::Uuid::new_v4().as_u128() }
}

} // verus!
