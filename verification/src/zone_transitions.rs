use vstd::prelude::*;
use crate::card_types::CardType;
use crate::errors::GameError;
use crate::game_objects::{
    BattlefieldState, Characteristics, CreatureAspect, GameObj, GraveyardState, HandState,
    LibraryState, StackState, chars_any_nonpermanent, chars_any_permanent, chars_creature_consistent,
    chars_has_type, type_list_any_nonpermanent, type_list_any_permanent, type_list_contains,
};
use crate::ids::PlayerId;

verus! {

// The default, replacement-effect-free ways of moving game objects between
// zones. Each transition consumes the source-zone object and produces the
// destination-zone object, so an object can never exist in two zone shapes
// at once.

/// The battlefield state a card enters with: untapped, face up, phased in,
/// under `controller`, with a fresh creature aspect when it is a creature.
///
/// A creature's aspect starts summoning-sick, with zeroed modifiers, no
/// marked damage, and cached power/toughness taken from the printed values.
pub open spec fn spec_enter_battlefield_state(c: Characteristics, controller: PlayerId)
    -> BattlefieldState {
    BattlefieldState {
        tapped: false,
        flipped: false,
        face_down: false,
        phased_out: false,
        controller,
        creature: if chars_has_type(c, CardType::Creature) {
            Some(
                CreatureAspect {
                    summoning_sick: true,
                    power_modifier: 0,
                    toughness_modifier: 0,
                    current_power: c.power->0,
                    current_toughness: c.toughness->0,
                    damage_marked: 0,
                    attacking: None,
                    blocking: None,
                },
            )
        } else {
            None
        },
    }
}

/// Builds the battlefield state for a card with characteristics `c`
/// entering under `controller`.
fn enter_battlefield_state(c: &Characteristics, controller: PlayerId) -> (r: BattlefieldState)
    requires
        chars_creature_consistent(*c),
    ensures
        r == spec_enter_battlefield_state(*c, controller),
{
    let mut state = BattlefieldState {
        tapped: false,
        flipped: false,
        face_down: false,
        phased_out: false,
        controller,
        creature: None,
    };
    let is_creature = match &c.card_type {
        Some(types) => type_list_contains(types, &CardType::Creature),
        None => false,
    };
    if is_creature {
        state.creature = Some(
            CreatureAspect {
                summoning_sick: true,
                power_modifier: 0,
                toughness_modifier: 0,
                current_power: c.power.unwrap(),
                current_toughness: c.toughness.unwrap(),
                damage_marked: 0,
                attacking: None,
                blocking: None,
            },
        );
    }
    state
}

/// The battlefield object a hand card becomes when played under
/// `controller`.
pub open spec fn spec_to_battlefield(o: GameObj<HandState>, controller: PlayerId) -> GameObj<
    BattlefieldState,
> {
    GameObj {
        id: o.id,
        owner: o.owner,
        characteristics: o.characteristics,
        state: spec_enter_battlefield_state(o.characteristics, controller),
    }
}

impl GameObj<HandState> {
    /// Move this card from the hand onto the battlefield under `controller`.
    ///
    /// A creature enters summoning-sick with cached stats initialized from
    /// its printed power and toughness.
    pub fn to_battlefield(self, controller: PlayerId) -> (r: GameObj<BattlefieldState>)
        requires
            self.creature_consistent(),
        ensures
            r == spec_to_battlefield(self, controller),
    {
        let state = enter_battlefield_state(&self.characteristics, controller);
        GameObj { id: self.id, owner: self.owner, characteristics: self.characteristics, state }
    }

    /// Move this card from the hand onto the stack with the given stack state.
    pub fn to_stack(self, stack_state: StackState) -> (r: GameObj<StackState>)
        ensures
            r.id == self.id,
            r.owner == self.owner,
            r.characteristics == self.characteristics,
            r.state == stack_state,
    {
        GameObj {
            id: self.id,
            owner: self.owner,
            characteristics: self.characteristics,
            state: stack_state,
        }
    }
}

/// The graveyard-state object a battlefield permanent becomes.
pub open spec fn spec_to_graveyard(o: GameObj<BattlefieldState>) -> GameObj<GraveyardState> {
    GameObj { id: o.id, owner: o.owner, characteristics: o.characteristics, state: GraveyardState }
}

impl GameObj<BattlefieldState> {
    /// Move this permanent to a graveyard.
    pub fn to_graveyard(self) -> (r: GameObj<GraveyardState>)
        ensures
            r == spec_to_graveyard(self),
    {
        GameObj {
            id: self.id,
            owner: self.owner,
            characteristics: self.characteristics,
            state: GraveyardState,
        }
    }
}

impl GameObj<StackState> {
    /// Resolve a permanent-typed spell: it moves onto the battlefield under
    /// the spell's controller. Fails when no card type is a permanent type.
    pub fn resolve_as_permanent(self, spell_controller: PlayerId) -> (r: Result<
        GameObj<BattlefieldState>,
        GameError,
    >)
        requires
            self.creature_consistent(),
        ensures
            match r {
                Ok(obj) => {
                    &&& chars_any_permanent(self.characteristics)
                    &&& obj.id == self.id
                    &&& obj.owner == self.owner
                    &&& obj.characteristics == self.characteristics
                    &&& obj.state == spec_enter_battlefield_state(
                        self.characteristics,
                        spell_controller,
                    )
                },
                Err(e) => !chars_any_permanent(self.characteristics) && e
                    == GameError::NotAPermanent,
            },
    {
        let is_permanent_type = match &self.characteristics.card_type {
            Some(types) => type_list_any_permanent(types),
            None => false,
        };
        if !is_permanent_type {
            return Err(GameError::NotAPermanent);
        }
        let state = enter_battlefield_state(&self.characteristics, spell_controller);
        Ok(GameObj { id: self.id, owner: self.owner, characteristics: self.characteristics, state })
    }

    /// Resolve a nonpermanent-typed spell: it moves to a graveyard. Fails
    /// when no card type is a nonpermanent type.
    pub fn resolve_as_nonpermanent(self) -> (r: Result<GameObj<GraveyardState>, GameError>)
        ensures
            match r {
                Ok(obj) => {
                    &&& chars_any_nonpermanent(self.characteristics)
                    &&& obj.id == self.id
                    &&& obj.owner == self.owner
                    &&& obj.characteristics == self.characteristics
                    &&& obj.state == GraveyardState
                },
                Err(e) => !chars_any_nonpermanent(self.characteristics) && e
                    == GameError::NotANonpermanent,
            },
    {
        let is_nonpermanent_type = match &self.characteristics.card_type {
            Some(types) => type_list_any_nonpermanent(types),
            None => false,
        };
        if !is_nonpermanent_type {
            return Err(GameError::NotANonpermanent);
        }
        Ok(
            GameObj {
                id: self.id,
                owner: self.owner,
                characteristics: self.characteristics,
                state: GraveyardState,
            },
        )
    }

    /// Resolve an ability: it simply ceases to be an object.
    pub fn resolve_as_ability(self) -> (r: Result<(), GameError>)
        ensures
            r is Ok,
    {
        Ok(())
    }
}

/// The hand-state object a library card becomes when drawn.
pub open spec fn spec_to_hand(o: GameObj<LibraryState>) -> GameObj<HandState> {
    GameObj { id: o.id, owner: o.owner, characteristics: o.characteristics, state: HandState }
}

impl GameObj<LibraryState> {
    /// Move this card from the library to its owner's hand.
    pub fn to_hand(self) -> (r: GameObj<HandState>)
        ensures
            r == spec_to_hand(self),
    {
        GameObj {
            id: self.id,
            owner: self.owner,
            characteristics: self.characteristics,
            state: HandState,
        }
    }
}

impl GameObj<GraveyardState> {
    /// Return this card from the graveyard to its owner's hand.
    pub fn to_hand(self) -> (r: GameObj<HandState>)
        ensures
            r.id == self.id,
            r.owner == self.owner,
            r.characteristics == self.characteristics,
            r.state == HandState,
    {
        GameObj {
            id: self.id,
            owner: self.owner,
            characteristics: self.characteristics,
            state: HandState,
        }
    }
}

} // verus!
