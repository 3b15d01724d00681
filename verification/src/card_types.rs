use vstd::prelude::*;

verus! {

/// The card types recognised by the engine.
#[derive(Debug, Clone, Copy, PartialEq, Eq, Hash, Structural)]
pub enum CardType {
    Artifact,
    Battle,
    Creature,
    Enchantment,
    Instant,
    Land,
    Planeswalker,
    Sorcery,
}

/// Supertypes such as Basic or Legendary.
#[derive(Debug, Clone, Copy, PartialEq, Eq, Hash, Structural)]
pub enum Supertype {
    Basic,
    Legendary,
    Snow,
    World,
}

/// The subtypes of basic lands.
#[derive(Debug, Clone, Copy, PartialEq, Eq, Hash, Structural)]
pub enum BasicLandType {
    Plains,
    Island,
    Swamp,
    Mountain,
    Forest,
}

/// Land subtypes.
#[derive(Debug, Clone, Copy, PartialEq, Eq, Hash, Structural)]
pub enum LandType {
    Basic(BasicLandType),
}

/// Creature subtypes.
#[derive(Debug, Clone, Copy, PartialEq, Eq, Hash, Structural)]
pub enum CreatureType {
    Bear,
}

/// A subtype, scoped by the card type it refines.
#[derive(Debug, Clone, Copy, PartialEq, Eq, Hash, Structural)]
pub enum Subtype {
    Land(LandType),
    Creature(CreatureType),
}

impl CardType {
    /// Whether a card of this type is cast as a spell (everything but lands).
    pub fn is_spell(&self) -> (r: bool)
        ensures
            r == self.spec_is_spell(),
    {
        !matches!(self, CardType::Land)
    }

    /// Whether a card of this type becomes a permanent when it resolves.
    pub fn is_permanent(&self) -> (r: bool)
        ensures
            r == self.spec_is_permanent(),
    {
        matches!(self,
            CardType::Artifact |
            CardType::Battle |
            CardType::Creature |
            CardType::Enchantment |
            CardType::Land |
            CardType::Planeswalker)
    }

    pub open spec fn spec_is_spell(self) -> bool {
        self != CardType::Land
    }

    pub open spec fn spec_is_permanent(self) -> bool {
        self != CardType::Instant && self != CardType::Sorcery
    }
}

} // verus!
