//! Fresh identifiers for sessions and profiles.

use vstd::prelude::*;

verus! {

/// The bits of a UUID that carry its version and variant.
pub const UUID_KIND_MASK: u128 = 0x0000_0000_0000_f000_c000_0000_0000_0000;

/// The version and variant bits of a random (version 4, RFC 4122) UUID.
pub const UUID_RANDOM_KIND: u128 = 0x0000_0000_0000_4000_8000_0000_0000_0000;

/// Whether `id` has the shape of a random UUID: version 4, RFC 4122 variant.
pub open spec fn is_random_uuid(id: u128) -> bool {
    id & UUID_KIND_MASK == UUID_RANDOM_KIND
}

/// Draws a fresh random identifier.
///
/// Trusted: calls `uuid::Uuid::new_v4` and returns the UUID packed into a `u128`
/// with `Uuid::as_u128`.  The contract claims only what holds of every draw: the
/// version and variant bits that `new_v4` forces.  Two draws may be equal, however
/// unlikely.  `new_v4` panics if the operating system's random source fails.
#[verifier::external_body]
pub(crate) fn random_uuid() -> (id: u128)
    ensures
        is_random_uuid(id),
{
    uuid::Uuid::new_v4().as_u128()
}

} // verus!
