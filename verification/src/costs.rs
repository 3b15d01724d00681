use vstd::prelude::*;

verus! {

/// A mana cost, split into the five colored components, true-colorless,
/// and the generic component payable with mana of any type.
#[derive(Debug, Clone, Copy, PartialEq, Eq, Structural)]
pub struct ManaCost {
    pub white: u8,
    pub blue: u8,
    pub black: u8,
    pub red: u8,
    pub green: u8,
    pub colorless: u8,
    pub generic: u8,
}

impl ManaCost {
    /// A cost of `white_amount` white plus `generic_amount` generic mana.
    pub fn white(white_amount: u8, generic_amount: u8) -> (r: Self)
        ensures
            r == (ManaCost {
                white: white_amount,
                blue: 0u8,
                black: 0u8,
                red: 0u8,
                green: 0u8,
                colorless: 0u8,
                generic: generic_amount,
            }),
    {
        ManaCost {
            white: white_amount,
            blue: 0,
            black: 0,
            red: 0,
            green: 0,
            colorless: 0,
            generic: generic_amount,
        }
    }

    /// A cost of `blue_amount` blue plus `generic_amount` generic mana.
    pub fn blue(blue_amount: u8, generic_amount: u8) -> (r: Self)
        ensures
            r == (ManaCost {
                white: 0u8,
                blue: blue_amount,
                black: 0u8,
                red: 0u8,
                green: 0u8,
                colorless: 0u8,
                generic: generic_amount,
            }),
    {
        ManaCost {
            white: 0,
            blue: blue_amount,
            black: 0,
            red: 0,
            green: 0,
            colorless: 0,
            generic: generic_amount,
        }
    }

    /// A cost of `black_amount` black plus `generic_amount` generic mana.
    pub fn black(black_amount: u8, generic_amount: u8) -> (r: Self)
        ensures
            r == (ManaCost {
                white: 0u8,
                blue: 0u8,
                black: black_amount,
                red: 0u8,
                green: 0u8,
                colorless: 0u8,
                generic: generic_amount,
            }),
    {
        ManaCost {
            white: 0,
            blue: 0,
            black: black_amount,
            red: 0,
            green: 0,
            colorless: 0,
            generic: generic_amount,
        }
    }

    /// A cost of `red_amount` red plus `generic_amount` generic mana.
    pub fn red(red_amount: u8, generic_amount: u8) -> (r: Self)
        ensures
            r == (ManaCost {
                white: 0u8,
                blue: 0u8,
                black: 0u8,
                red: red_amount,
                green: 0u8,
                colorless: 0u8,
                generic: generic_amount,
            }),
    {
        ManaCost {
            white: 0,
            blue: 0,
            black: 0,
            red: red_amount,
            green: 0,
            colorless: 0,
            generic: generic_amount,
        }
    }

    /// A cost of `green_amount` green plus `generic_amount` generic mana.
    pub fn green(green_amount: u8, generic_amount: u8) -> (r: Self)
        ensures
            r == (ManaCost {
                white: 0u8,
                blue: 0u8,
                black: 0u8,
                red: 0u8,
                green: green_amount,
                colorless: 0u8,
                generic: generic_amount,
            }),
    {
        ManaCost {
            white: 0,
            blue: 0,
            black: 0,
            red: 0,
            green: green_amount,
            colorless: 0,
            generic: generic_amount,
        }
    }

    /// A cost of `colorless_amount` colorless plus `generic_amount` generic mana.
    pub fn colorless(colorless_amount: u8, generic_amount: u8) -> (r: Self)
        ensures
            r == (ManaCost {
                white: 0u8,
                blue: 0u8,
                black: 0u8,
                red: 0u8,
                green: 0u8,
                colorless: colorless_amount,
                generic: generic_amount,
            }),
    {
        ManaCost {
            white: 0,
            blue: 0,
            black: 0,
            red: 0,
            green: 0,
            colorless: colorless_amount,
            generic: generic_amount,
        }
    }
}

/// A cost of activating an ability.
#[derive(Debug, Clone, Copy, PartialEq, Eq, Structural)]
pub enum Cost {
    Tap,
    Mana(ManaCost),
}

} // verus!
