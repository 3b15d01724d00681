use vstd::prelude::*;
use crate::ids::{ObjectId, PlayerId};
use crate::mana::ManaType;
use crate::targeting::TargetRef;
use crate::turns::{PhaseType, StepType};

verus! {

/// Why a permanent left the battlefield for the graveyard.
#[derive(Debug, Clone, Copy, PartialEq, Eq, Structural)]
pub enum DeathReason {
    /// Put directly into the graveyard; cannot be regenerated.
    ZeroToughness,
    /// Destroyed by lethal damage; can be regenerated.
    LethalDamage,
    /// Destroyed by an effect.
    DestroyEffect,
    /// Sacrificed (not destroyed).
    Sacrifice,
    /// Put into the graveyard by the legend rule (not destroyed).
    LegendRule,
}

/// The closed set of game events the dispatcher routes.
///
/// Each event is handled by one focused handler on the game; handlers may
/// themselves emit further events, in strict call order.
#[derive(Debug, Clone)]
pub enum GameEvent {
    /// A player activated a mana ability of a permanent.
    ManaAbilityActivated { source_id: ObjectId, player_id: PlayerId },
    /// Mana is added to a player's pool.
    ManaAdded { source_id: ObjectId, player_id: PlayerId, mana_types: Vec<(ManaType, u64)> },
    /// A phase has ended.
    PhaseEnded { phase_type: PhaseType },
    /// A step has ended.
    StepEnded { step_type: StepType },
    /// Damage is about to be dealt: the hook point for future replacement
    /// and prevention effects.
    DamageAboutToBeDealt { source_id: ObjectId, target_ref: TargetRef, amount: u64 },
    /// Damage is dealt, after replacement effects.
    DamageDealt { source_id: ObjectId, target_ref: TargetRef, amount: u64 },
    /// Run the batch of state-based action checks.
    CheckStateBasedActions,
    /// A creature with toughness 0 or less goes to its owner's graveyard.
    CreatureZeroToughness { creature_id: ObjectId },
    /// A permanent is destroyed.
    PermanentDestroyed { permanent_id: ObjectId, reason: DeathReason },
    /// A permanent is sacrificed. Reserved; not handled yet.
    PermanentSacrificed { permanent_id: ObjectId },
    /// Reserved; not handled yet.
    PermanentEntersBattlefield { permanent_id: ObjectId },
    /// Reserved; not handled yet.
    PermanentLeavesBattlefield { permanent_id: ObjectId },
    /// Reserved; not handled yet.
    CreatureDies { creature_id: ObjectId },
    /// Reserved; not handled yet.
    SpellCast { spell_id: ObjectId, caster_id: PlayerId },
    /// Reserved; not handled yet.
    EndOfTurn { player_id: PlayerId },
}

} // verus!
