//! A turn-based card-game rules engine for a two-player trading-card game.
//!
//! The engine models the authoritative game state: zone-typed game objects,
//! the turn/phase/step state machine, priority passing, stack resolution,
//! event dispatch, state-based actions, and cost/targeting validation.

pub mod abilities;
pub mod card_types;
pub mod colors;
pub mod combat_types;
pub mod cards;
pub mod costs;
pub mod deck;
pub mod effect_context;
pub mod errors;
pub mod events;
pub mod game;
pub mod game_actions;
pub mod game_costs;
pub mod game_creatures;
pub mod game_effects;
pub mod game_events;
pub mod game_turns;
pub mod game_objects;
pub mod ids;
pub mod laws;
pub mod mana;
pub mod obj_lookup;
pub mod player;
pub mod targeting;
pub mod turns;
pub mod zone_transitions;
pub mod zones;

use vstd::prelude::*;

verus! {

} // verus!
