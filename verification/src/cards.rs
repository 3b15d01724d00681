use vstd::prelude::*;
use crate::abilities::{AbilityDefinition, AbilityType, EffectDetails};
use crate::card_types::{BasicLandType, CardType, LandType, Subtype, Supertype};
use crate::colors::Color;
use crate::costs::{Cost, ManaCost};
use crate::errors::GameError;
use crate::game_objects::{Characteristics, GameObj, LibraryState};
use crate::ids::{PlayerId, fresh_object_id};
use crate::mana::ManaType;
use crate::targeting::{TargetCategory, TargetCriteria, TargetingRequirement};

verus! {

/// The six basic lands. Wastes is kept apart from the basic land subtypes
/// because it has no basic land type of its own.
#[derive(Debug, Clone, Copy, PartialEq, Eq, Structural)]
pub enum BasicLand {
    Plains,
    Island,
    Swamp,
    Mountain,
    Forest,
    Wastes,
}

/// The display name of a basic land.
pub open spec fn basic_land_name(v: BasicLand) -> Seq<char> {
    match v {
        BasicLand::Plains => "Plains"@,
        BasicLand::Island => "Island"@,
        BasicLand::Swamp => "Swamp"@,
        BasicLand::Mountain => "Mountain"@,
        BasicLand::Forest => "Forest"@,
        BasicLand::Wastes => "Wastes"@,
    }
}

/// The mana type a basic land taps for.
pub open spec fn basic_land_mana(v: BasicLand) -> ManaType {
    match v {
        BasicLand::Plains => ManaType::White,
        BasicLand::Island => ManaType::Blue,
        BasicLand::Swamp => ManaType::Black,
        BasicLand::Mountain => ManaType::Red,
        BasicLand::Forest => ManaType::Green,
        BasicLand::Wastes => ManaType::Colorless,
    }
}

/// The subtype a basic land carries; Wastes has none.
pub open spec fn basic_land_subtype(v: BasicLand) -> Option<Seq<Subtype>> {
    match v {
        BasicLand::Plains => Some(seq![Subtype::Land(LandType::Basic(BasicLandType::Plains))]),
        BasicLand::Island => Some(seq![Subtype::Land(LandType::Basic(BasicLandType::Island))]),
        BasicLand::Swamp => Some(seq![Subtype::Land(LandType::Basic(BasicLandType::Swamp))]),
        BasicLand::Mountain => Some(seq![Subtype::Land(LandType::Basic(BasicLandType::Mountain))]),
        BasicLand::Forest => Some(seq![Subtype::Land(LandType::Basic(BasicLandType::Forest))]),
        BasicLand::Wastes => None,
    }
}

/// What a basic land card of variant `v` owned by `owner` looks like:
/// a colorless Land with supertype Basic, the variant's subtype, no mana
/// cost, and one mana ability that taps for one mana of the variant's type.
pub open spec fn is_basic_land_card(obj: GameObj<LibraryState>, v: BasicLand, owner: PlayerId)
    -> bool {
    let c = obj.characteristics;
    &&& obj.owner == owner
    &&& obj.state == LibraryState
    &&& c.name matches Some(n) && n@ == basic_land_name(v)
    &&& c.mana_cost is None
    &&& c.color matches Some(cl) && cl@.len() == 0
    &&& c.color_indicator is None
    &&& c.card_type matches Some(ts) && ts@ == seq![CardType::Land]
    &&& c.supertype matches Some(ss) && ss@ == seq![Supertype::Basic]
    &&& match basic_land_subtype(v) {
        Some(st) => c.subtype matches Some(actual) && actual@ == st,
        None => c.subtype is None,
    }
    &&& c.rules_text is Some
    &&& c.abilities matches Some(abs) && abs@.len() == 1 && {
        let ab = abs@[0];
        &&& ab.ability_type == AbilityType::Mana
        &&& ab.costs@ == seq![Cost::Tap]
        &&& ab.effect_details matches EffectDetails::ProduceMana { mana_produced }
            && mana_produced@ == seq![(basic_land_mana(v), 1u64)]
    }
    &&& c.power is None
    &&& c.toughness is None
    &&& c.loyalty is None
    &&& c.defense is None
    &&& c.hand_modifier is None
    &&& c.life_modifier is None
}

/// Creates a basic land card of the given variant, owned by `owner`, in
/// library state.
pub fn create_basic_land(basic_land_variant: BasicLand, owner: PlayerId) -> (r: GameObj<
    LibraryState,
>)
    ensures
        is_basic_land_card(r, basic_land_variant, owner),
        r.creature_consistent(),
{
    let id = fresh_object_id();

    let mut card_types: Vec<CardType> = Vec::new();
    card_types.push(CardType::Land);

    let mut supertype: Vec<Supertype> = Vec::new();
    supertype.push(Supertype::Basic);

    let subtype: Option<Vec<Subtype>> = match basic_land_variant {
        BasicLand::Plains => {
            let mut s: Vec<Subtype> = Vec::new();
            s.push(Subtype::Land(LandType::Basic(BasicLandType::Plains)));
            Some(s)
        },
        BasicLand::Island => {
            let mut s: Vec<Subtype> = Vec::new();
            s.push(Subtype::Land(LandType::Basic(BasicLandType::Island)));
            Some(s)
        },
        BasicLand::Swamp => {
            let mut s: Vec<Subtype> = Vec::new();
            s.push(Subtype::Land(LandType::Basic(BasicLandType::Swamp)));
            Some(s)
        },
        BasicLand::Mountain => {
            let mut s: Vec<Subtype> = Vec::new();
            s.push(Subtype::Land(LandType::Basic(BasicLandType::Mountain)));
            Some(s)
        },
        BasicLand::Forest => {
            let mut s: Vec<Subtype> = Vec::new();
            s.push(Subtype::Land(LandType::Basic(BasicLandType::Forest)));
            Some(s)
        },
        BasicLand::Wastes => None,
    };

    let (card_name, rules_text): (String, String) = match basic_land_variant {
        BasicLand::Plains => ("Plains".to_owned(), "T: Add {W}".to_owned()),
        BasicLand::Island => ("Island".to_owned(), "T: Add {U}".to_owned()),
        BasicLand::Swamp => ("Swamp".to_owned(), "T: Add {B}".to_owned()),
        BasicLand::Mountain => ("Mountain".to_owned(), "T: Add {R}".to_owned()),
        BasicLand::Forest => ("Forest".to_owned(), "T: Add {G}".to_owned()),
        BasicLand::Wastes => ("Wastes".to_owned(), "T: Add {C}".to_owned()),
    };

    let mana_type = match basic_land_variant {
        BasicLand::Plains => ManaType::White,
        BasicLand::Island => ManaType::Blue,
        BasicLand::Swamp => ManaType::Black,
        BasicLand::Mountain => ManaType::Red,
        BasicLand::Forest => ManaType::Green,
        BasicLand::Wastes => ManaType::Colorless,
    };

    let mut mana_list: Vec<(ManaType, u64)> = Vec::new();
    mana_list.push((mana_type, 1));

    let mut cost_vec: Vec<Cost> = Vec::new();
    cost_vec.push(Cost::Tap);

    let mana_ability = AbilityDefinition {
        id: fresh_object_id(),
        ability_type: AbilityType::Mana,
        costs: cost_vec,
        effect_details: EffectDetails::ProduceMana { mana_produced: mana_list },
    };

    let mut abilities: Vec<AbilityDefinition> = Vec::new();
    abilities.push(mana_ability);

    let characteristics = Characteristics {
        name: Some(card_name),
        mana_cost: None,
        color: Some(Vec::new()),
        color_indicator: None,
        card_type: Some(card_types),
        supertype: Some(supertype),
        subtype,
        rules_text: Some(rules_text),
        abilities: Some(abilities),
        power: None,
        toughness: None,
        loyalty: None,
        defense: None,
        hand_modifier: None,
        life_modifier: None,
    };

    GameObj { id, owner, characteristics, state: LibraryState }
}

/// What a Lightning Bolt card's characteristics look like: a red instant
/// costing one red mana, whose spell ability deals 3 damage to any target.
pub open spec fn is_lightning_bolt_chars(c: Characteristics) -> bool {
    &&& c.name matches Some(n) && n@ == "Lightning Bolt"@
    &&& c.mana_cost == Some(
        ManaCost {
            white: 0u8,
            blue: 0u8,
            black: 0u8,
            red: 1u8,
            green: 0u8,
            colorless: 0u8,
            generic: 0u8,
        },
    )
    &&& c.color matches Some(cl) && cl@ == seq![Color::Red]
    &&& c.color_indicator is None
    &&& c.card_type matches Some(ts) && ts@ == seq![CardType::Instant]
    &&& c.supertype is None
    &&& c.subtype is None
    &&& c.rules_text is Some
    &&& c.abilities matches Some(abs) && abs@.len() == 1 && {
        let ab = abs@[0];
        &&& ab.ability_type == AbilityType::Spell
        &&& ab.costs@.len() == 0
        &&& ab.effect_details matches EffectDetails::DealDamage { amount, target_requirement }
            && amount == 3u64 && (target_requirement matches Some(req) && (req.criteria
            == TargetCriteria::Category(TargetCategory::AnyDamageable) && req.min_targets == 1u8
            && req.max_targets == 1u8 && req.id == 1u8))
    }
    &&& c.power is None
    &&& c.toughness is None
    &&& c.loyalty is None
    &&& c.defense is None
    &&& c.hand_modifier is None
    &&& c.life_modifier is None
}

/// The characteristics of Lightning Bolt.
pub fn lightning_bolt_characteristics() -> (r: Characteristics)
    ensures
        is_lightning_bolt_chars(r),
        chars_ok(r),
{
    let mut card_types: Vec<CardType> = Vec::new();
    card_types.push(CardType::Instant);

    let mut color: Vec<Color> = Vec::new();
    color.push(Color::Red);

    let effect_details = EffectDetails::DealDamage {
        amount: 3,
        target_requirement: Some(TargetingRequirement::any_target(1)),
    };

    let mut abilities: Vec<AbilityDefinition> = Vec::new();
    abilities.push(
        AbilityDefinition {
            id: fresh_object_id(),
            ability_type: AbilityType::Spell,
            costs: Vec::new(),
            effect_details,
        },
    );

    Characteristics {
        name: Some("Lightning Bolt".to_owned()),
        mana_cost: Some(ManaCost::red(1, 0)),
        color: Some(color),
        color_indicator: None,
        card_type: Some(card_types),
        supertype: None,
        subtype: None,
        rules_text: Some("~ deals 3 damage to any target.".to_owned()),
        abilities: Some(abilities),
        power: None,
        toughness: None,
        loyalty: None,
        defense: None,
        hand_modifier: None,
        life_modifier: None,
    }
}

/// What a Grizzly Bears card's characteristics look like: a vanilla green
/// 2/2 creature costing one green and one generic mana.
pub open spec fn is_grizzly_bears_chars(c: Characteristics) -> bool {
    &&& c.name matches Some(n) && n@ == "Grizzly Bears"@
    &&& c.mana_cost == Some(
        ManaCost {
            white: 0u8,
            blue: 0u8,
            black: 0u8,
            red: 0u8,
            green: 1u8,
            colorless: 0u8,
            generic: 1u8,
        },
    )
    &&& c.color matches Some(cl) && cl@ == seq![Color::Green]
    &&& c.color_indicator is None
    &&& c.card_type matches Some(ts) && ts@ == seq![CardType::Creature]
    &&& c.supertype is None
    &&& c.subtype matches Some(st) && st@ == seq![
        Subtype::Creature(crate::card_types::CreatureType::Bear),
    ]
    &&& c.rules_text is Some
    &&& c.abilities is None
    &&& c.power == Some(2i32)
    &&& c.toughness == Some(2i32)
    &&& c.loyalty is None
    &&& c.defense is None
    &&& c.hand_modifier is None
    &&& c.life_modifier is None
}

/// A creature's characteristics must carry power and toughness.
pub open spec fn chars_ok(c: Characteristics) -> bool {
    crate::game_objects::chars_creature_consistent(c)
}

/// The characteristics of Grizzly Bears.
pub fn grizzly_bears_characteristics() -> (r: Characteristics)
    ensures
        is_grizzly_bears_chars(r),
        chars_ok(r),
{
    let mut card_types: Vec<CardType> = Vec::new();
    card_types.push(CardType::Creature);

    let mut color: Vec<Color> = Vec::new();
    color.push(Color::Green);

    let mut subtype: Vec<Subtype> = Vec::new();
    subtype.push(Subtype::Creature(crate::card_types::CreatureType::Bear));

    Characteristics {
        name: Some("Grizzly Bears".to_owned()),
        mana_cost: Some(ManaCost::green(1, 1)),
        color: Some(color),
        color_indicator: None,
        card_type: Some(card_types),
        supertype: None,
        subtype: Some(subtype),
        // Grizzly Bears is vanilla; an empty rules text keeps display code
        // uniform across creatures.
        rules_text: Some("".to_owned()),
        abilities: None,
        power: Some(2),
        toughness: Some(2),
        loyalty: None,
        defense: None,
        hand_modifier: None,
        life_modifier: None,
    }
}

/// Generates game objects in various zones from registered card names.
pub struct ObjectGenerator;

impl ObjectGenerator {
    /// Create a card in library state from its registered name.
    ///
    /// The registry knows "Lightning Bolt" and "Grizzly Bears"; any other
    /// name fails.
    pub fn create_card_in_library(card_name: &str, owner: PlayerId) -> (r: Result<
        GameObj<LibraryState>,
        GameError,
    >)
        ensures
            match r {
                Ok(obj) => {
                    &&& obj.owner == owner
                    &&& obj.state == LibraryState
                    &&& obj.creature_consistent()
                    &&& (card_name@ == "Lightning Bolt"@ && is_lightning_bolt_chars(
                        obj.characteristics,
                    ) || card_name@ == "Grizzly Bears"@ && is_grizzly_bears_chars(
                        obj.characteristics,
                    ))
                },
                Err(e) => {
                    &&& card_name@ != "Lightning Bolt"@
                    &&& card_name@ != "Grizzly Bears"@
                    &&& e == GameError::CardNotInRegistry
                },
            },
    {
        let key: String = card_name.to_owned();
        if key == "Lightning Bolt".to_owned() {
            Ok(
                GameObj {
                    id: fresh_object_id(),
                    owner,
                    characteristics: lightning_bolt_characteristics(),
                    state: LibraryState,
                },
            )
        } else if key == "Grizzly Bears".to_owned() {
            Ok(
                GameObj {
                    id: fresh_object_id(),
                    owner,
                    characteristics: grizzly_bears_characteristics(),
                    state: LibraryState,
                },
            )
        } else {
            Err(GameError::CardNotInRegistry)
        }
    }
}

} // verus!
