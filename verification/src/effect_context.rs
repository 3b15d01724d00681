use vstd::prelude::*;

verus! {

/// Turn-scoped counters that conditional effects read.
#[derive(Debug, Clone, Copy, PartialEq, Eq, Structural)]
pub struct EffectContext {
    pub cards_drawn_this_turn: u32,
}

impl EffectContext {
    /// A fresh context with all counters zeroed.
    pub fn new() -> (r: Self)
        ensures
            r == (EffectContext { cards_drawn_this_turn: 0u32 }),
    {
        EffectContext { cards_drawn_this_turn: 0 }
    }

    /// Zero the per-turn counters at a turn boundary.
    pub fn reset_turn_tracking(&mut self)
        ensures
            *final(self) == (EffectContext { cards_drawn_this_turn: 0u32 }),
    {
        self.cards_drawn_this_turn = 0;
    }
}

} // verus!
