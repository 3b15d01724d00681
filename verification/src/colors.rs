use vstd::prelude::*;

verus! {

/// The five colors of mana a card can have.
#[derive(Debug, Clone, Copy, PartialEq, Eq, Hash, Structural)]
pub enum Color {
    White,
    Blue,
    Black,
    Red,
    Green,
}

} // verus!
