use vstd::prelude::*;
use crate::errors::GameError;
use crate::game::Game;
use crate::game_objects::{BattlefieldState, CreatureAspect, GameObj};
use crate::ids::ObjectId;
use crate::obj_lookup::first_idx_by_id;

verus! {

/// An `i32` sum held within the representable range instead of wrapping.
pub open spec fn i32_sat_add(a: int, b: int) -> int {
    if a + b > i32::MAX {
        i32::MAX as int
    } else if a + b < i32::MIN {
        i32::MIN as int
    } else {
        a + b
    }
}

/// Adds two `i32` values, holding the sum at the representable bounds.
fn sat_add_i32(a: i32, b: i32) -> (r: i32)
    ensures
        r == i32_sat_add(a as int, b as int),
{
    let wide: i64 = a as i64 + b as i64;
    if wide > i32::MAX as i64 {
        i32::MAX
    } else if wide < i32::MIN as i64 {
        i32::MIN
    } else {
        wide as i32
    }
}


/// What modifying a creature's power or toughness modifier does: the
/// named modifier grows by `amount` (held within the representable
/// range), and the cached stats are then refreshed.
pub open spec fn modifier_changed_rel(
    pre: Game,
    post: Game,
    creature_id: ObjectId,
    amount: i32,
    to_power: bool,
    r: Result<(), GameError>,
) -> bool {
    let bi = first_idx_by_id(pre.battlefield@, creature_id);
    if bi < 0 {
        r == Err::<(), GameError>(GameError::PermanentNotFound) && post == pre
    } else {
        let obj = pre.battlefield@[bi];
        match obj.state.creature {
            None => r == Err::<(), GameError>(GameError::NotACreature) && post == pre,
            Some(aspect) => {
                exists|mid: Game|
                    {
                        &&& #[trigger] stats_updated_rel(mid, post, creature_id, r)
                        &&& mid == (Game { battlefield: mid.battlefield, ..pre })
                        &&& mid.battlefield@ == pre.battlefield@.update(
                            bi,
                            GameObj {
                                state: BattlefieldState {
                                    creature: Some(
                                        if to_power {
                                            CreatureAspect {
                                                power_modifier: i32_sat_add(
                                                    aspect.power_modifier as int,
                                                    amount as int,
                                                ) as i32,
                                                ..aspect
                                            }
                                        } else {
                                            CreatureAspect {
                                                toughness_modifier: i32_sat_add(
                                                    aspect.toughness_modifier as int,
                                                    amount as int,
                                                ) as i32,
                                                ..aspect
                                            }
                                        },
                                    ),
                                    ..obj.state
                                },
                                ..obj
                            },
                        )
                    }
            },
        }
    }
}

impl Game {
    /// Recalculate a creature's cached power and toughness from its
    /// printed values and its modifiers. Call this after any direct
    /// power or toughness modification.
    ///
    /// Succeeds without change for a battlefield object without printed
    /// power and toughness or without a creature aspect.
    pub fn update_creature_stats(&mut self, creature_id: ObjectId) -> (r: Result<(), GameError>)
        requires
            old(self).wf(),
        ensures
            final(self).wf(),
            final(self).players@.len() == old(self).players@.len(),
            stats_updated_rel(*old(self), *final(self), creature_id, r),
    {
        let bi = match self.bf_find(creature_id) {
            None => {
                return Err(GameError::PermanentNotFound);
            },
            Some(i) => i,
        };
        let base_power = match self.battlefield[bi].characteristics.power {
            Some(p) => p,
            None => {
                return Ok(());
            },
        };
        let base_toughness = match self.battlefield[bi].characteristics.toughness {
            Some(t) => t,
            None => {
                return Ok(());
            },
        };
        let ghost pre = *old(self);
        let obj = &mut self.battlefield[bi];
        match &mut obj.state.creature {
            Some(aspect) => {
                let new_power = sat_add_i32(base_power, aspect.power_modifier);
                let new_toughness = sat_add_i32(base_toughness, aspect.toughness_modifier);
                aspect.current_power = new_power;
                aspect.current_toughness = new_toughness;
            },
            None => {},
        }
        proof {
            crate::game_events::lemma_bf_update_keeps_wf(pre, *self, bi as int);
        }
        Ok(())
    }

    /// Modify a creature's power by `amount` and refresh its cached stats.
    pub fn modify_creature_power(&mut self, creature_id: ObjectId, amount: i32) -> (r: Result<
        (),
        GameError,
    >)
        requires
            old(self).wf(),
        ensures
            final(self).wf(),
            final(self).players@.len() == old(self).players@.len(),
            modifier_changed_rel(*old(self), *final(self), creature_id, amount, true, r),
    {
        let bi = match self.bf_find(creature_id) {
            None => {
                return Err(GameError::PermanentNotFound);
            },
            Some(i) => i,
        };
        let ghost pre = *old(self);
        let has_aspect = self.battlefield[bi].state.creature.is_some();
        if !has_aspect {
            return Err(GameError::NotACreature);
        }
        let obj = &mut self.battlefield[bi];
        match &mut obj.state.creature {
            Some(aspect) => {
                let m = sat_add_i32(aspect.power_modifier, amount);
                aspect.power_modifier = m;
            },
            None => {
                proof {
                    assert(false);
                }
            },
        }
        proof {
            crate::game_events::lemma_bf_update_keeps_wf(pre, *self, bi as int);
            crate::obj_lookup::lemma_first_idx_props(pre.battlefield@, creature_id);
            crate::obj_lookup::lemma_first_idx_at(self.battlefield@, creature_id, bi as int);
        }
        let ghost mid = *self;
        let res = self.update_creature_stats(creature_id);
        proof {
            assert(stats_updated_rel(mid, *self, creature_id, res));
        }
        res
    }

    /// Modify a creature's toughness by `amount` and refresh its cached
    /// stats.
    pub fn modify_creature_toughness(&mut self, creature_id: ObjectId, amount: i32) -> (r: Result<
        (),
        GameError,
    >)
        requires
            old(self).wf(),
        ensures
            final(self).wf(),
            final(self).players@.len() == old(self).players@.len(),
            modifier_changed_rel(*old(self), *final(self), creature_id, amount, false, r),
    {
        let bi = match self.bf_find(creature_id) {
            None => {
                return Err(GameError::PermanentNotFound);
            },
            Some(i) => i,
        };
        let ghost pre = *old(self);
        let has_aspect = self.battlefield[bi].state.creature.is_some();
        if !has_aspect {
            return Err(GameError::NotACreature);
        }
        let obj = &mut self.battlefield[bi];
        match &mut obj.state.creature {
            Some(aspect) => {
                let m = sat_add_i32(aspect.toughness_modifier, amount);
                aspect.toughness_modifier = m;
            },
            None => {
                proof {
                    assert(false);
                }
            },
        }
        proof {
            crate::game_events::lemma_bf_update_keeps_wf(pre, *self, bi as int);
            crate::obj_lookup::lemma_first_idx_props(pre.battlefield@, creature_id);
            crate::obj_lookup::lemma_first_idx_at(self.battlefield@, creature_id, bi as int);
        }
        let ghost mid = *self;
        let res = self.update_creature_stats(creature_id);
        proof {
            assert(stats_updated_rel(mid, *self, creature_id, res));
        }
        res
    }

    /// The cached current power of a battlefield creature.
    pub fn get_creature_power(&self, creature_id: ObjectId) -> (r: Result<i32, GameError>)
        ensures
            match r {
                Ok(p) => {
                    let bi = first_idx_by_id(self.battlefield@, creature_id);
                    &&& bi >= 0
                    &&& self.battlefield@[bi].state.creature matches Some(a) && a.current_power
                        == p
                },
                Err(e) => {
                    let bi = first_idx_by_id(self.battlefield@, creature_id);
                    if bi < 0 {
                        e == GameError::PermanentNotFound
                    } else {
                        self.battlefield@[bi].state.creature is None && e == GameError::NotACreature
                    }
                },
            },
    {
        let bi = match self.bf_find(creature_id) {
            None => {
                return Err(GameError::PermanentNotFound);
            },
            Some(i) => i,
        };
        match &self.battlefield[bi].state.creature {
            Some(aspect) => Ok(aspect.current_power),
            None => Err(GameError::NotACreature),
        }
    }

    /// The cached current toughness of a battlefield creature.
    pub fn get_creature_toughness(&self, creature_id: ObjectId) -> (r: Result<i32, GameError>)
        ensures
            match r {
                Ok(t) => {
                    let bi = first_idx_by_id(self.battlefield@, creature_id);
                    &&& bi >= 0
                    &&& self.battlefield@[bi].state.creature matches Some(a) && a.current_toughness
                        == t
                },
                Err(e) => {
                    let bi = first_idx_by_id(self.battlefield@, creature_id);
                    if bi < 0 {
                        e == GameError::PermanentNotFound
                    } else {
                        self.battlefield@[bi].state.creature is None && e == GameError::NotACreature
                    }
                },
            },
    {
        let bi = match self.bf_find(creature_id) {
            None => {
                return Err(GameError::PermanentNotFound);
            },
            Some(i) => i,
        };
        match &self.battlefield[bi].state.creature {
            Some(aspect) => Ok(aspect.current_toughness),
            None => Err(GameError::NotACreature),
        }
    }
}

/// What refreshing a creature's cached stats does: the cached power and
/// toughness become the printed values plus the modifiers, held within
/// the representable range; an object without printed stats or without a
/// creature aspect is left unchanged.
pub open spec fn stats_updated_rel(
    pre: Game,
    post: Game,
    creature_id: ObjectId,
    r: Result<(), GameError>,
) -> bool {
    let bi = first_idx_by_id(pre.battlefield@, creature_id);
    if bi < 0 {
        r == Err::<(), GameError>(GameError::PermanentNotFound) && post == pre
    } else {
        let obj = pre.battlefield@[bi];
        if obj.characteristics.power is None || obj.characteristics.toughness is None {
            r is Ok && post == pre
        } else {
            match obj.state.creature {
                None => r is Ok && post == (Game { battlefield: post.battlefield, ..pre })
                    && post.battlefield@ == pre.battlefield@.update(bi, obj),
                Some(aspect) => {
                    &&& r is Ok
                    &&& post == (Game { battlefield: post.battlefield, ..pre })
                    &&& post.battlefield@ == pre.battlefield@.update(
                        bi,
                        GameObj {
                            state: BattlefieldState {
                                creature: Some(
                                    CreatureAspect {
                                        current_power: i32_sat_add(
                                            obj.characteristics.power->0 as int,
                                            aspect.power_modifier as int,
                                        ) as i32,
                                        current_toughness: i32_sat_add(
                                            obj.characteristics.toughness->0 as int,
                                            aspect.toughness_modifier as int,
                                        ) as i32,
                                        ..aspect
                                    },
                                ),
                                ..obj.state
                            },
                            ..obj
                        },
                    )
                },
            }
        }
    }
}

} // verus!
