//! Identifier minting: sessions and pending actions are keyed by fresh
//! UUID strings. The registries treat them as opaque keys; freshness is a
//! property of the generator's randomness, so the bridge checks nothing
//! about an id beyond its registry membership.

use vstd::prelude::*;

verus! {

/// Relies on `uuid::Uuid::new_v4` and its `Display` form: a random
/// version-4 UUID rendered hyphenated, 36 characters of lower-case
/// hexadecimal digits and hyphens. The value is random, so nothing more
/// than its shape can be promised.
#[verifier::external_body]
pub fn fresh_uuid() -> (r: String)
    ensures
        r@.len() == 36,
        forall|i: int|
            0 <= i < 36 ==> crate::jtext::is_hex_digit(#[trigger] r@[i]) || r@[i] == '-',
{
    uuid::Uuid::new_v4().to_string()
}

} // verus!
