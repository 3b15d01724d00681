use vstd::prelude::*;
use crate::abilities::AbilityDefinition;
use crate::card_types::{CardType, Subtype, Supertype};
use crate::colors::Color;
use crate::combat_types::AttackTarget;
use crate::costs::ManaCost;
use crate::ids::{ObjectId, PlayerId};
use crate::targeting::TargetRef;
use crate::zones::Zone;

verus! {

/// The capability tag a zone-specific object state carries: it names the
/// zone the state shape belongs to.
pub trait ZoneState {
    /// The zone objects in this state reside in.
    fn zone() -> Zone;
}

/// The static descriptive data of a card or object.
///
/// Every field is optional because applicability depends on the card's type.
#[derive(Debug, Clone, PartialEq)]
pub struct Characteristics {
    pub name: Option<String>,
    pub mana_cost: Option<ManaCost>,
    pub color: Option<Vec<Color>>,
    pub color_indicator: Option<Vec<Color>>,
    pub card_type: Option<Vec<CardType>>,
    pub supertype: Option<Vec<Supertype>>,
    pub subtype: Option<Vec<Subtype>>,
    pub rules_text: Option<String>,
    pub abilities: Option<Vec<AbilityDefinition>>,
    pub power: Option<i32>,
    pub toughness: Option<i32>,
    pub loyalty: Option<i32>,
    pub defense: Option<i32>,
    pub hand_modifier: Option<i32>,
    pub life_modifier: Option<i32>,
}

/// Whether the characteristics list `t` among their card types.
pub open spec fn chars_has_type(c: Characteristics, t: CardType) -> bool {
    match c.card_type {
        Some(ts) => ts@.contains(t),
        None => false,
    }
}

/// Whether any of the listed card types is a permanent type.
pub open spec fn chars_any_permanent(c: Characteristics) -> bool {
    match c.card_type {
        Some(ts) => exists|i: int| 0 <= i < ts@.len() && (#[trigger] ts@[i]).spec_is_permanent(),
        None => false,
    }
}

/// Whether any of the listed card types is a nonpermanent type.
pub open spec fn chars_any_nonpermanent(c: Characteristics) -> bool {
    match c.card_type {
        Some(ts) => exists|i: int| 0 <= i < ts@.len() && !(#[trigger] ts@[i]).spec_is_permanent(),
        None => false,
    }
}

/// A creature card must carry printed power and toughness.
pub open spec fn chars_creature_consistent(c: Characteristics) -> bool {
    chars_has_type(c, CardType::Creature) ==> c.power is Some && c.toughness is Some
}

/// A card, permanent or spell. The `state` field's type ties the object to
/// the zone it is in; transition functions are the only way to change it.
#[derive(Debug, Clone)]
pub struct GameObj<S: ZoneState> {
    /// Globally unique, stable across zone moves.
    pub id: ObjectId,
    /// Fixed for the object's lifetime.
    pub owner: PlayerId,
    pub characteristics: Characteristics,
    pub state: S,
}

/// An object in a player's library. No zone-specific data.
#[derive(Debug, Clone, Copy, PartialEq, Eq, Structural)]
pub struct LibraryState;

/// An object in a player's hand. No zone-specific data.
#[derive(Debug, Clone, Copy, PartialEq, Eq, Structural)]
pub struct HandState;

/// An object in a player's graveyard. No zone-specific data.
#[derive(Debug, Clone, Copy, PartialEq, Eq, Structural)]
pub struct GraveyardState;

/// An object in exile. No zone-specific data.
#[derive(Debug, Clone, Copy, PartialEq, Eq, Structural)]
pub struct ExileState;

/// An object in the command zone. No zone-specific data.
#[derive(Debug, Clone, Copy, PartialEq, Eq, Structural)]
pub struct CommandState;

/// Combat state of a creature that is attacking.
#[derive(Debug, Clone, PartialEq)]
pub struct AttackingState {
    pub target: AttackTarget,
    /// Whether this creature is currently blocked. Kept apart from
    /// `blocked_by` so that a blocker removed from combat still stops
    /// the damage from going through.
    pub is_blocked: bool,
    /// Ids of the creatures blocking this creature.
    pub blocked_by: Vec<ObjectId>,
}

/// Combat state of a creature that is blocking.
#[derive(Debug, Clone, PartialEq)]
pub struct BlockingState {
    /// The creatures this one is blocking.
    pub blocking: Vec<ObjectId>,
    /// How many creatures this one can block.
    pub max_can_block: u32,
}

/// Creature-specific battlefield data.
#[derive(Debug, Clone, PartialEq)]
pub struct CreatureAspect {
    pub summoning_sick: bool,
    /// Temporary modification of power.
    pub power_modifier: i32,
    /// Temporary modification of toughness.
    pub toughness_modifier: i32,
    /// Cached current power; recalculated after modifier changes.
    pub current_power: i32,
    /// Cached current toughness; recalculated after modifier changes.
    pub current_toughness: i32,
    /// Damage marked on the creature this turn.
    pub damage_marked: u64,
    pub attacking: Option<AttackingState>,
    pub blocking: Option<BlockingState>,
}

/// An object on the battlefield.
#[derive(Debug, Clone, PartialEq)]
pub struct BattlefieldState {
    pub tapped: bool,
    pub flipped: bool,
    pub face_down: bool,
    pub phased_out: bool,
    /// May differ from the object's owner.
    pub controller: PlayerId,
    /// Present only for creatures.
    pub creature: Option<CreatureAspect>,
}

/// The kinds of objects that can wait on the stack.
#[derive(Debug, Clone, Copy, PartialEq, Eq, Structural)]
pub enum StackObjectType {
    /// A card cast as a spell.
    Spell,
    /// A copy of a spell.
    CopyOfSpell,
    /// An activated ability of a permanent.
    ActivatedAbility,
    /// A triggered ability that has triggered.
    TriggeredAbility,
    /// A copy of an ability.
    CopyOfAbility,
}

/// An object waiting on the stack.
#[derive(Debug, Clone, PartialEq)]
pub struct StackState {
    pub controller: PlayerId,
    pub targets: Vec<TargetRef>,
    pub stack_object_type: StackObjectType,
    /// For abilities, the permanent that generated them.
    pub source_id: Option<ObjectId>,
}

impl ZoneState for LibraryState {
    fn zone() -> Zone {
        Zone::Library
    }
}

impl ZoneState for HandState {
    fn zone() -> Zone {
        Zone::Hand
    }
}

impl ZoneState for BattlefieldState {
    fn zone() -> Zone {
        Zone::Battlefield
    }
}

impl ZoneState for StackState {
    fn zone() -> Zone {
        Zone::Stack
    }
}

impl ZoneState for GraveyardState {
    fn zone() -> Zone {
        Zone::Graveyard
    }
}

impl ZoneState for ExileState {
    fn zone() -> Zone {
        Zone::Exile
    }
}

impl ZoneState for CommandState {
    fn zone() -> Zone {
        Zone::Command
    }
}

/// Whether a list of card types contains `t`.
pub fn type_list_contains(ts: &Vec<CardType>, t: &CardType) -> (r: bool)
    ensures
        r == ts@.contains(*t),
{
    let n = ts.len();
    let mut i: usize = 0;
    while i < n
        invariant
            n == ts@.len(),
            i <= n,
            forall|j: int| 0 <= j < i ==> ts@[j] != *t,
        decreases n - i,
    {
        if ts[i] == *t {
            return true;
        }
        i = i + 1;
    }
    false
}

/// Whether a list of subtypes contains `t`.
fn subtype_list_contains(ts: &Vec<Subtype>, t: &Subtype) -> (r: bool)
    ensures
        r == ts@.contains(*t),
{
    let n = ts.len();
    let mut i: usize = 0;
    while i < n
        invariant
            n == ts@.len(),
            i <= n,
            forall|j: int| 0 <= j < i ==> ts@[j] != *t,
        decreases n - i,
    {
        if ts[i] == *t {
            return true;
        }
        i = i + 1;
    }
    false
}

/// Whether a list of supertypes contains `t`.
fn supertype_list_contains(ts: &Vec<Supertype>, t: &Supertype) -> (r: bool)
    ensures
        r == ts@.contains(*t),
{
    let n = ts.len();
    let mut i: usize = 0;
    while i < n
        invariant
            n == ts@.len(),
            i <= n,
            forall|j: int| 0 <= j < i ==> ts@[j] != *t,
        decreases n - i,
    {
        if ts[i] == *t {
            return true;
        }
        i = i + 1;
    }
    false
}

/// Whether any type in the list is a permanent type.
pub fn type_list_any_permanent(ts: &Vec<CardType>) -> (r: bool)
    ensures
        r == exists|i: int| 0 <= i < ts@.len() && (#[trigger] ts@[i]).spec_is_permanent(),
{
    let n = ts.len();
    let mut i: usize = 0;
    while i < n
        invariant
            n == ts@.len(),
            i <= n,
            forall|j: int| 0 <= j < i ==> !(#[trigger] ts@[j]).spec_is_permanent(),
        decreases n - i,
    {
        if ts[i].is_permanent() {
            return true;
        }
        i = i + 1;
    }
    false
}

/// Whether any type in the list is a nonpermanent type.
pub fn type_list_any_nonpermanent(ts: &Vec<CardType>) -> (r: bool)
    ensures
        r == exists|i: int| 0 <= i < ts@.len() && !(#[trigger] ts@[i]).spec_is_permanent(),
{
    let n = ts.len();
    let mut i: usize = 0;
    while i < n
        invariant
            n == ts@.len(),
            i <= n,
            forall|j: int| 0 <= j < i ==> (#[trigger] ts@[j]).spec_is_permanent(),
        decreases n - i,
    {
        if !ts[i].is_permanent() {
            return true;
        }
        i = i + 1;
    }
    false
}

impl<S: ZoneState> GameObj<S> {
    /// Whether this object's characteristics list card type `t`.
    pub open spec fn spec_has_card_type(self, t: CardType) -> bool {
        chars_has_type(self.characteristics, t)
    }

    /// Whether any of this object's card types is a permanent type.
    pub open spec fn spec_any_permanent(self) -> bool {
        chars_any_permanent(self.characteristics)
    }

    /// A creature object must carry printed power and toughness.
    pub open spec fn creature_consistent(self) -> bool {
        chars_creature_consistent(self.characteristics)
    }

    /// Check whether this object has a specific card type.
    pub fn has_card_type(&self, card_type: &CardType) -> (r: bool)
        ensures
            r == self.spec_has_card_type(*card_type),
    {
        match &self.characteristics.card_type {
            Some(types) => type_list_contains(types, card_type),
            None => false,
        }
    }

    /// Check whether this object has a specific subtype.
    pub fn has_card_subtype(&self, subtype: &Subtype) -> (r: bool)
        ensures
            r == match self.characteristics.subtype {
                Some(ts) => ts@.contains(*subtype),
                None => false,
            },
    {
        match &self.characteristics.subtype {
            Some(subtypes) => subtype_list_contains(subtypes, subtype),
            None => false,
        }
    }

    /// Check whether this object has a specific supertype.
    pub fn has_card_supertype(&self, supertype: &Supertype) -> (r: bool)
        ensures
            r == match self.characteristics.supertype {
                Some(ts) => ts@.contains(*supertype),
                None => false,
            },
    {
        match &self.characteristics.supertype {
            Some(supertypes) => supertype_list_contains(supertypes, supertype),
            None => false,
        }
    }
}

} // verus!
