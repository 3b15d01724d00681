use vstd::prelude::*;
use crate::ids::{ObjectId, PlayerId};
use crate::targeting::TargetCriteria;

verus! {

/// What an attacking creature is attacking.
#[derive(Debug, Clone, Copy, PartialEq, Eq, Structural)]
pub enum AttackTarget {
    Player(PlayerId),
    Planeswalker(ObjectId),
    Battle(ObjectId),
}

/// Who or what combat damage is assigned to.
#[derive(Debug, Clone, Copy, PartialEq, Eq, Structural)]
pub enum DamageRecipient {
    Creature(ObjectId),
    Player(PlayerId),
    Planeswalker(ObjectId),
    Battle(ObjectId),
}

/// One creature declared as an attacker, and what it attacks.
#[derive(Debug, Clone, Copy, PartialEq, Eq, Structural)]
pub struct AttackDeclaration {
    pub attacker_id: ObjectId,
    pub target: AttackTarget,
}

/// One creature declared as a blocker, and which attacker it blocks.
#[derive(Debug, Clone, Copy, PartialEq, Eq, Structural)]
pub struct BlockDeclaration {
    pub blocker_id: ObjectId,
    pub attacker_id: ObjectId,
}

/// One parcel of combat damage from a source to a recipient.
#[derive(Debug, Clone, Copy, PartialEq, Eq, Structural)]
pub struct CombatDamageAssignment {
    pub source_id: ObjectId,
    pub target_id: DamageRecipient,
    pub amount: u32,
    pub is_first_strike: bool,
    pub is_trample: bool,
}

/// Restrictions on how a creature may be blocked.
#[derive(Debug, Clone, PartialEq)]
pub enum BlockingRequirement {
    /// At least this many creatures must block (menace and its kin).
    MinimumBlockers(u32),
    /// Only creatures matching the criteria may block.
    RequiredBlockerType(TargetCriteria),
    /// Creatures matching the criteria cannot block.
    CannotBeBlockedBy(TargetCriteria),
}

/// An attacking creature with its target and blocking restrictions.
#[derive(Debug, Clone)]
pub struct AttackingCreature {
    pub creature_id: ObjectId,
    pub attack_target_id: ObjectId,
    pub attack_target_type: AttackTarget,
    pub blocking_requirements: Vec<BlockingRequirement>,
}

/// A blocking creature and the attackers it blocks.
#[derive(Debug, Clone)]
pub struct BlockingCreature {
    pub creature_id: ObjectId,
    pub blocking: Vec<ObjectId>,
    pub max_can_block: u32,
}

} // verus!
