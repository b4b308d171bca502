//! Identifiers of aggregates.

use vstd::prelude::*;

verus! {

/// The stable identifier of a user or a journal: the 128 bits of a UUID.
pub type AggregateId = u128;

/// The bits that mark a version 4 UUID.
pub const V4_MASK: u128 = 0x0000_0000_0000_f000_c000_0000_0000_0000;

/// The value of the marked bits in a version 4 UUID.
pub const V4_MARK: u128 = 0x0000_0000_0000_4000_8000_0000_0000_0000;

/// A fresh random identifier.
///
/// Calls `uuid::Uuid::new_v4` and hands out its 128 bits through
/// `uuid::Uuid::as_u128`. Nothing is claimed of the random bits; the contract
/// only states the version and variant marks that `new_v4` sets in every
/// identifier. The call panics where the operating system has no randomness to give.
#[verifier::external_body]
pub(crate) fn random_id() -> (id: AggregateId)
    ensures
        id & V4_MASK == V4_MARK,
{
    uuid::Uuid::new_v4().as_u128()
}

} // verus!
