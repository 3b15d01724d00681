use vstd::prelude::*;
use crate::mana::ManaType;

verus! {

/// The closed set of failures the engine can report.
///
/// Every fallible operation returns one of these; none aborts the process.
/// The variants group into state-precondition violations (wrong priority,
/// wrong phase, missing objects, unpayable costs, illegal targets),
/// invariant-violating constructions (wrong permanent/nonpermanent shape),
/// and typed "unsupported" results for paths outside the engine's scope.
#[derive(Debug, Clone, Copy, PartialEq, Eq, Structural)]
pub enum GameError {
    PlayerNotFound,
    LibraryEmpty,
    CardNotFoundInHand,
    NotALand,
    NotYourTurn,
    NotMainPhase,
    StackNotEmpty,
    NoPriority,
    NoLandDropsRemaining,
    LandsCannotBeCast,
    SorcerySpeedViolation,
    InvalidTargets,
    NotEnoughManaToCast,
    TapNeedsPermanent,
    PermanentNotFound,
    CannotPayCost,
    NotEnoughManaOfType(ManaType),
    NoManaOfType(ManaType),
    NotEnoughManaInPool,
    ManaPoolOverflow,
    StackEmpty,
    SpellWithoutTypes,
    NotAPermanent,
    NotANonpermanent,
    UnsupportedStackObject,
    UnhandledEvent,
    NotController,
    NoAbilities,
    NoManaAbility,
    InvalidManaAbility,
    NotDamageable,
    AbilityNotFound,
    NotActivatedAbility,
    DamageNeedsTarget,
    UnsupportedEffect,
    UnsupportedCastZone,
    NotACreature,
    NotAttacking,
    InvalidPhaseStep,
    RequirementNotFound,
    TooManyTargets,
    CardNotInRegistry,
    MultipleRequirementsUnsupported,
}

impl GameError {
    /// A human-readable description of the failure, for display by a caller.
    pub fn message(&self) -> String {
        match self {
            GameError::PlayerNotFound => "Player not found".to_owned(),
            GameError::LibraryEmpty => "Library is empty".to_owned(),
            GameError::CardNotFoundInHand => "Card not found in hand".to_owned(),
            GameError::NotALand => "Selected card is not a land".to_owned(),
            GameError::NotYourTurn => "You can only play lands via special action on your turn".to_owned(),
            GameError::NotMainPhase => "You can only play a land during your main phase".to_owned(),
            GameError::StackNotEmpty => "You can only play lands when the stack is empty".to_owned(),
            GameError::NoPriority => "You can only take this action when you have priority".to_owned(),
            GameError::NoLandDropsRemaining => "You have no land drops remaining this turn".to_owned(),
            GameError::LandsCannotBeCast => "Lands cannot be cast".to_owned(),
            GameError::SorcerySpeedViolation => "You can only cast non-instant spells during your main phase when the stack is empty".to_owned(),
            GameError::InvalidTargets => "Invalid targets for this spell".to_owned(),
            GameError::NotEnoughManaToCast => "You don't have enough mana to cast this spell".to_owned(),
            GameError::TapNeedsPermanent => "A tap payment needs a permanent_id to tap, received none".to_owned(),
            GameError::PermanentNotFound => "Permanent not found on the battlefield".to_owned(),
            GameError::CannotPayCost => "Cannot pay cost".to_owned(),
            GameError::NotEnoughManaOfType(t) => match t {
                ManaType::White => "Not enough White mana in the pool".to_owned(),
                ManaType::Blue => "Not enough Blue mana in the pool".to_owned(),
                ManaType::Black => "Not enough Black mana in the pool".to_owned(),
                ManaType::Red => "Not enough Red mana in the pool".to_owned(),
                ManaType::Green => "Not enough Green mana in the pool".to_owned(),
                ManaType::Colorless => "Not enough Colorless mana in the pool".to_owned(),
            },
            GameError::NoManaOfType(t) => match t {
                ManaType::White => "No White mana in the pool".to_owned(),
                ManaType::Blue => "No Blue mana in the pool".to_owned(),
                ManaType::Black => "No Black mana in the pool".to_owned(),
                ManaType::Red => "No Red mana in the pool".to_owned(),
                ManaType::Green => "No Green mana in the pool".to_owned(),
                ManaType::Colorless => "No Colorless mana in the pool".to_owned(),
            },
            GameError::NotEnoughManaInPool => "Not enough mana in mana pool to pay cost!".to_owned(),
            GameError::ManaPoolOverflow => "Mana pool cannot hold that much mana".to_owned(),
            GameError::StackEmpty => "Cannot resolve top of stack: Stack is empty".to_owned(),
            GameError::SpellWithoutTypes => "Spell without card types cannot be resolved".to_owned(),
            GameError::NotAPermanent => "Can't resolve a non-permanent spell as a permanent".to_owned(),
            GameError::NotANonpermanent => "Can't resolve a spell with no nonpermanent types as a nonpermanent spell".to_owned(),
            GameError::UnsupportedStackObject => "Resolving this kind of stack object is not supported".to_owned(),
            GameError::UnhandledEvent => "Unhandled game event".to_owned(),
            GameError::NotController => "You can only use permanents you control".to_owned(),
            GameError::NoAbilities => "Permanent has no abilities".to_owned(),
            GameError::NoManaAbility => "Permanent has no mana abilities".to_owned(),
            GameError::InvalidManaAbility => "Invalid mana ability effect".to_owned(),
            GameError::NotDamageable => "Object cannot be dealt damage".to_owned(),
            GameError::AbilityNotFound => "No ability with that id on this permanent".to_owned(),
            GameError::NotActivatedAbility => "This is not an activated ability".to_owned(),
            GameError::DamageNeedsTarget => "Damage effect requires a target but none was provided".to_owned(),
            GameError::UnsupportedEffect => "Processing this kind of effect is not supported".to_owned(),
            GameError::UnsupportedCastZone => "Cannot cast from this zone".to_owned(),
            GameError::NotACreature => "Object is not a creature".to_owned(),
            GameError::NotAttacking => "Creature is not attacking".to_owned(),
            GameError::InvalidPhaseStep => "Current step is not valid for the current phase".to_owned(),
            GameError::RequirementNotFound => "No targeting requirement with that id".to_owned(),
            GameError::TooManyTargets => "Requirement already has its maximum targets".to_owned(),
            GameError::CardNotInRegistry => "Name not found in card registry".to_owned(),
            GameError::MultipleRequirementsUnsupported => "Spells with several target requirements are not supported".to_owned(),
        }
    }
}

} // verus!
