use vstd::prelude::*;

verus! {

/// Identity of a game object: globally unique and stable across zone moves.
pub type ObjectId = u64;

/// Identity of a player: its position in the game's player list.
pub type PlayerId = usize;

/// Draws a fresh identifier for a newly created game object.
///
/// Relies on uuid::Uuid::new_v4, which returns a random version-4 UUID;
/// the low 64 bits of the UUID serve as the object id. The result is
/// random, so nothing is promised of it.
#[verifier::external_body]
pub fn fresh_object_id() -> ObjectId {
    uuid::Uuid::new_v4().as_u64_pair().1
}

} // verus!
