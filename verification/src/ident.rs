use vstd::prelude::*;

verus! {

/// Allocate an opaque object identifier. Relies on `uuid::Uuid::new_v4`: the
/// result is drawn from a cryptographically strong randomness source, wide
/// enough (128 bits) that collisions are negligible over any realistic
/// object count. It takes no input, so it can never be derived from a
/// caller-supplied name or payload. Nothing can be promised of one random
/// value; the store enforces uniqueness defensively on insertion.
#[verifier::external_body]
pub fn allocate_id() -> u128 {
    uuid::Uuid::new_v4().as_u128()
}

} // verus!
