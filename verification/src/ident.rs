//! Entity identifiers: 128-bit values drawn at random on the server.

use vstd::prelude::*;

verus! {

/// The bits of an identifier that say how it was made: the version and the
/// variant of a UUID.
pub const KIND_MASK: u128 = 0x0000_0000_0000_F000_C000_0000_0000_0000;

/// The version and variant of a UUID that was drawn at random.
pub const RANDOM_KIND: u128 = 0x0000_0000_0000_4000_8000_0000_0000_0000;

/// Whether `id` has the form of a UUID that was drawn at random: version 4
/// of the standard variant.
pub open spec fn is_random_uuid(id: u128) -> bool {
    id & KIND_MASK == RANDOM_KIND
}

/// `Uuid::new_v4` read through `Uuid::as_u128`: a freshly drawn random
/// identifier. Of the value only its form is claimed, which `new_v4` sets
/// whatever bits it drew: version 4, standard variant. The call panics
/// where the system has no random bytes to give.
#[verifier::external_body]
pub(crate) fn random_uuid() -> (id: u128)
    ensures
        is_random_uuid(id),
{
    uuid::Uuid::new_v4().as_u128()
}

} // verus!
