use vstd::prelude::*;
use crate::abilities::{AbilityDefinition, AbilityType, EffectDetails, copy_mana_amounts};
use crate::card_types::CardType;
use crate::costs::Cost;
use crate::errors::GameError;
use crate::events::{DeathReason, GameEvent};
use crate::game::{
    Game, lemma_player_idx_props, lemma_player_idx_under_wf, player_idx, same_but_players,
    same_but_players_battlefield,
};
use crate::game_objects::{BattlefieldState, CreatureAspect, GameObj};
use crate::ids::{ObjectId, PlayerId};
use crate::mana::{
    ManaType, lemma_pool_amount_sum_push, lemma_pool_push_total, lemma_pool_total_nonneg,
    lemma_pool_total_split, pool_amount_sum, pool_total,
};
use crate::obj_lookup::{first_idx_by_id, lemma_first_idx_at, lemma_first_idx_props};
use crate::player::{Player, player_same_but_graveyard, player_same_but_pool};
use crate::targeting::{TargetRef, TargetRefId};
use crate::zone_transitions::spec_to_graveyard;

verus! {

/// How many further dispatches an event can cause: events whose handlers
/// emit other events rank above the events they emit.
pub open spec fn event_rank(e: GameEvent) -> int {
    match e {
        GameEvent::ManaAbilityActivated { .. } => 1,
        GameEvent::CheckStateBasedActions => 1,
        GameEvent::DamageAboutToBeDealt { .. } => 1,
        _ => 0,
    }
}

/// A life total after taking `amount` damage, held at the representable
/// floor rather than wrapping.
pub open spec fn life_after_damage(life: int, amount: u64) -> int {
    let d = if amount > i64::MAX {
        i64::MAX as int
    } else {
        amount as int
    };
    if life - d >= i64::MIN {
        life - d
    } else {
        i64::MIN as int
    }
}

/// Marked damage after `amount` more, held at the representable ceiling
/// rather than wrapping.
pub open spec fn marked_after_damage(marked: u64, amount: u64) -> u64 {
    if marked + amount <= u64::MAX {
        (marked + amount) as u64
    } else {
        u64::MAX
    }
}

/// What dealing `amount` damage to `target` does: a player target loses
/// that much life; an object target must be a battlefield creature, which
/// gets the damage marked on it.
pub open spec fn damage_dealt_rel(
    pre: Game,
    post: Game,
    target: TargetRef,
    amount: u64,
    r: Result<(), GameError>,
) -> bool {
    match target.ref_id {
        TargetRefId::Player(pid) => {
            let pi = player_idx(pre.players@, pid);
            if pi < 0 {
                r == Err::<(), GameError>(GameError::PlayerNotFound) && post == pre
            } else {
                &&& r is Ok
                &&& same_but_players(pre, post)
                &&& post.players@ == pre.players@.update(
                    pi,
                    Player {
                        life_total: life_after_damage(pre.players@[pi].life_total as int, amount)
                            as i64,
                        ..pre.players@[pi]
                    },
                )
            }
        },
        TargetRefId::Object(oid) => {
            let bi = first_idx_by_id(pre.battlefield@, oid);
            if bi < 0 {
                r == Err::<(), GameError>(GameError::PermanentNotFound) && post == pre
            } else {
                let obj = pre.battlefield@[bi];
                match obj.state.creature {
                    Some(aspect) => {
                        &&& r is Ok
                        &&& crate::game::same_but_battlefield(pre, post)
                        &&& post.battlefield@ == pre.battlefield@.update(
                            bi,
                            GameObj {
                                state: BattlefieldState {
                                    creature: Some(
                                        CreatureAspect {
                                            damage_marked: marked_after_damage(
                                                aspect.damage_marked,
                                                amount,
                                            ),
                                            ..aspect
                                        },
                                    ),
                                    ..obj.state
                                },
                                ..obj
                            },
                        )
                    },
                    None => r == Err::<(), GameError>(GameError::NotDamageable) && post == pre,
                }
            }
        },
    }
}

/// What removing the battlefield object `oid` to its owner's graveyard
/// does, for both destruction-like handlers.
pub open spec fn to_graveyard_rel(
    pre: Game,
    post: Game,
    oid: ObjectId,
    r: Result<(), GameError>,
) -> bool {
    let bi = first_idx_by_id(pre.battlefield@, oid);
    if bi < 0 {
        r == Err::<(), GameError>(GameError::PermanentNotFound) && post == pre
    } else {
        let obj = pre.battlefield@[bi];
        let pi = player_idx(pre.players@, obj.owner);
        &&& post.battlefield@ == pre.battlefield@.remove(bi)
        &&& same_but_players_battlefield(pre, post)
        &&& if pi < 0 {
            r == Err::<(), GameError>(GameError::PlayerNotFound) && post.players == pre.players
        } else {
            &&& r is Ok
            &&& post.players@.len() == pre.players@.len()
            &&& forall|k: int|
                0 <= k < pre.players@.len() && k != pi ==> post.players@[k] == pre.players@[k]
            &&& player_same_but_graveyard(pre.players@[pi], post.players@[pi])
            &&& post.players@[pi].graveyard@ == pre.players@[pi].graveyard@.push(
                spec_to_graveyard(obj),
            )
        }
    }
}

/// What adding the listed mana to a player's pool does. Fails without
/// change when the player is missing or the pool cannot hold the total.
pub open spec fn mana_added_rel(
    pre: Game,
    post: Game,
    player_id: PlayerId,
    mana_types: Seq<(ManaType, u64)>,
    r: Result<(), GameError>,
) -> bool {
    let pi = player_idx(pre.players@, player_id);
    if pi < 0 {
        r == Err::<(), GameError>(GameError::PlayerNotFound) && post == pre
    } else {
        let pool = pre.players@[pi].mana_pool;
        if pool.total() + pool_total(mana_types) > u64::MAX {
            r == Err::<(), GameError>(GameError::ManaPoolOverflow) && post == pre
        } else {
            &&& r is Ok
            &&& same_but_players(pre, post)
            &&& post.players@.len() == pre.players@.len()
            &&& forall|k: int|
                0 <= k < pre.players@.len() && k != pi ==> post.players@[k] == pre.players@[k]
            &&& player_same_but_pool(pre.players@[pi], post.players@[pi])
            &&& post.players@[pi].mana_pool.wf()
            &&& forall|t: ManaType|
                post.players@[pi].mana_pool.amount_of(t) == pool.amount_of(t) + pool_amount_sum(
                    mana_types,
                    t,
                )
            &&& post.players@[pi].mana_pool.total() == pool.total() + pool_total(mana_types)
        }
    }
}

/// What emptying every mana pool does.
pub open spec fn pools_emptied_rel(pre: Game, post: Game) -> bool {
    &&& same_but_players(pre, post)
    &&& post.players@.len() == pre.players@.len()
    &&& forall|i: int|
        0 <= i < pre.players@.len() ==> (#[trigger] post.players@[i]) == (Player {
            mana_pool: post.players@[i].mana_pool,
            ..pre.players@[i]
        }) && post.players@[i].mana_pool.spec_is_empty() && post.players@[i].mana_pool.wf()
}

/// A creature with toughness 0 or less: put straight into the graveyard.
pub open spec fn sba_zero_tough(o: GameObj<BattlefieldState>) -> bool {
    &&& o.spec_has_card_type(CardType::Creature)
    &&& o.characteristics.toughness matches Some(t) && t <= 0
}

/// A creature with positive toughness and at least that much damage
/// marked: destroyed by lethal damage.
pub open spec fn sba_lethal(o: GameObj<BattlefieldState>) -> bool {
    &&& o.spec_has_card_type(CardType::Creature)
    &&& o.state.creature is Some
    &&& o.characteristics.toughness matches Some(t) && t > 0 && o.state.creature->0.damage_marked
        >= t
}

/// An object the state-based actions move to the graveyard.
pub open spec fn sba_dead(o: GameObj<BattlefieldState>) -> bool {
    sba_zero_tough(o) || sba_lethal(o)
}

/// The deadness test of one state-based-action phase: the zero-toughness
/// check first, the lethal-damage check second.
pub open spec fn sba_phase_dead(o: GameObj<BattlefieldState>, lethal_phase: bool) -> bool {
    if lethal_phase {
        sba_lethal(o)
    } else {
        sba_zero_tough(o)
    }
}

/// The survivor test of one state-based-action phase, as a function value.
pub open spec fn sba_alive_pred(lethal_phase: bool) -> spec_fn(GameObj<BattlefieldState>) -> bool {
    |o: GameObj<BattlefieldState>| !sba_phase_dead(o, lethal_phase)
}

/// The survivor test of the whole batch, as a function value.
pub open spec fn sba_alive_all_pred() -> spec_fn(GameObj<BattlefieldState>) -> bool {
    |o: GameObj<BattlefieldState>| !sba_dead(o)
}

/// The test for a phase's dead creatures owned by player `p`, as a
/// function value.
pub open spec fn sba_gain_pred(p: int, lethal_phase: bool) -> spec_fn(
    GameObj<BattlefieldState>,
) -> bool {
    |o: GameObj<BattlefieldState>| sba_phase_dead(o, lethal_phase) && o.owner == p
}

/// The battlefield-to-graveyard conversion, as a function value.
pub open spec fn to_graveyard_fn() -> spec_fn(GameObj<BattlefieldState>) -> GameObj<
    crate::game_objects::GraveyardState,
> {
    |o: GameObj<BattlefieldState>| spec_to_graveyard(o)
}

/// The battlefield objects surviving one state-based-action phase.
pub open spec fn sba_survivors_phase(bf: Seq<GameObj<BattlefieldState>>, lethal_phase: bool) -> Seq<
    GameObj<BattlefieldState>,
> {
    bf.filter(sba_alive_pred(lethal_phase))
}

/// The battlefield objects surviving the whole batch of checks.
pub open spec fn sba_survivors(bf: Seq<GameObj<BattlefieldState>>) -> Seq<
    GameObj<BattlefieldState>,
> {
    bf.filter(sba_alive_all_pred())
}

/// What a player's graveyard gains from one state-based-action phase over
/// battlefield `bf`: its dead creatures, in battlefield order.
pub open spec fn sba_gy_gain_phase(
    bf: Seq<GameObj<BattlefieldState>>,
    p: int,
    lethal_phase: bool,
) -> Seq<GameObj<crate::game_objects::GraveyardState>> {
    bf.filter(sba_gain_pred(p, lethal_phase)).map_values(to_graveyard_fn())
}

/// What a creature's owner gains in the graveyard from the zero-toughness
/// check over battlefield `bf`.
pub open spec fn sba_gy_gain_zt(bf: Seq<GameObj<BattlefieldState>>, p: int) -> Seq<
    GameObj<crate::game_objects::GraveyardState>,
> {
    sba_gy_gain_phase(bf, p, false)
}

/// What a creature's owner gains in the graveyard from the lethal-damage
/// check over battlefield `bf`.
pub open spec fn sba_gy_gain_lethal(bf: Seq<GameObj<BattlefieldState>>, p: int) -> Seq<
    GameObj<crate::game_objects::GraveyardState>,
> {
    sba_gy_gain_phase(bf, p, true)
}

/// What one batch of state-based actions does: every dead creature leaves
/// the battlefield, exactly once, into its owner's graveyard — first the
/// zero-toughness creatures, then the lethally damaged ones, each group
/// in battlefield order. Nothing else changes. (The life-total loss check
/// is a documented gap: it changes nothing yet.)
pub open spec fn sba_rel(pre: Game, post: Game) -> bool {
    &&& same_but_players_battlefield(pre, post)
    &&& post.battlefield@ =~= sba_survivors(pre.battlefield@)
    &&& post.players@.len() == pre.players@.len()
    &&& forall|p: int|
        0 <= p < pre.players@.len() ==> player_same_but_graveyard(
            pre.players@[p],
            #[trigger] post.players@[p],
        ) && post.players@[p].graveyard@ =~= pre.players@[p].graveyard@ + sba_gy_gain_zt(
            pre.battlefield@,
            p,
        ) + sba_gy_gain_lethal(pre.battlefield@, p)
}

impl Game {
    /// Dispatch a game event to its handler.
    ///
    /// This is the single dispatch point for the closed event set; it
    /// keeps the ordering of side effects deterministic. Events without a
    /// handler yet fail with an unhandled-event error.
    pub fn handle_event(&mut self, event: &GameEvent) -> (r: Result<(), GameError>)
        requires
            old(self).wf(),
        ensures
            final(self).wf(),
            match *event {
                GameEvent::ManaAdded { source_id, player_id, mana_types } => mana_added_rel(
                    *old(self),
                    *final(self),
                    player_id,
                    mana_types@,
                    r,
                ),
                GameEvent::PhaseEnded { .. } => pools_emptied_rel(*old(self), *final(self)) && r
                    is Ok,
                GameEvent::StepEnded { .. } => pools_emptied_rel(*old(self), *final(self)) && r
                    is Ok,
                GameEvent::DamageAboutToBeDealt { source_id, target_ref, amount } =>
                    damage_dealt_rel(*old(self), *final(self), target_ref, amount, r),
                GameEvent::DamageDealt { source_id, target_ref, amount } => damage_dealt_rel(
                    *old(self),
                    *final(self),
                    target_ref,
                    amount,
                    r,
                ),
                GameEvent::CheckStateBasedActions => sba_rel(*old(self), *final(self)) && r is Ok,
                GameEvent::CreatureZeroToughness { creature_id } => to_graveyard_rel(
                    *old(self),
                    *final(self),
                    creature_id,
                    r,
                ),
                GameEvent::PermanentDestroyed { permanent_id, .. } => to_graveyard_rel(
                    *old(self),
                    *final(self),
                    permanent_id,
                    r,
                ),
                GameEvent::ManaAbilityActivated { source_id, player_id } => mana_ability_rel(
                    *old(self),
                    *final(self),
                    source_id,
                    player_id,
                    r,
                ),
                _ => r == Err::<(), GameError>(GameError::UnhandledEvent) && *final(self) == *old(
                    self,
                ),
            },
        decreases event_rank(*event), 1int,
    {
        match event {
            GameEvent::ManaAbilityActivated { source_id, player_id } => {
                self.handle_mana_ability_activated(*source_id, *player_id)
            },
            GameEvent::ManaAdded { source_id, player_id, mana_types } => {
                self.handle_mana_added(*source_id, *player_id, mana_types)
            },
            GameEvent::PhaseEnded { phase_type } => self.handle_phase_ended(*phase_type),
            GameEvent::StepEnded { step_type } => self.handle_step_ended(*step_type),
            GameEvent::DamageAboutToBeDealt { source_id, target_ref, amount } => {
                self.handle_damage_about_to_be_dealt(*source_id, target_ref, *amount)
            },
            GameEvent::DamageDealt { source_id, target_ref, amount } => {
                self.handle_damage_dealt(*source_id, target_ref, *amount)
            },
            GameEvent::CheckStateBasedActions => self.handle_check_state_based_actions(),
            GameEvent::CreatureZeroToughness { creature_id } => {
                self.handle_creature_zero_toughness(*creature_id)
            },
            GameEvent::PermanentDestroyed { permanent_id, reason } => {
                self.handle_permanent_destroyed(*permanent_id, *reason)
            },
            _ => Err(GameError::UnhandledEvent),
        }
    }

    /// Add the listed mana to the player's pool.
    ///
    /// The whole addition is rejected, with nothing added, when the pool
    /// cannot hold the combined total.
    #[verifier::loop_isolation(false)]
    pub fn handle_mana_added(
        &mut self,
        source_id: ObjectId,
        player_id: PlayerId,
        mana_types: &Vec<(ManaType, u64)>,
    ) -> (r: Result<(), GameError>)
        requires
            old(self).wf(),
        ensures
            final(self).wf(),
            mana_added_rel(*old(self), *final(self), player_id, mana_types@, r),
        decreases 0int, 0int,
    {
        let list = mana_types;
        let n = list.len();
        proof {
            lemma_player_idx_props(self.players@, player_id);
        }
        let pi = match self.find_player(player_id) {
            None => {
                return Err(GameError::PlayerNotFound);
            },
            Some(i) => i,
        };
        // First total up the incoming mana, rejecting anything the pool
        // cannot hold.
        let mut incoming: u64 = 0;
        let mut i: usize = 0;
        proof {
            assert(list@.take(0) =~= Seq::<(ManaType, u64)>::empty());
        }
        while i < n
            invariant
                *self == *old(self),
                n == list@.len(),
                i <= n,
                incoming == pool_total(list@.take(i as int)),
                pi == player_idx(self.players@, player_id),
                0 <= pi < self.players@.len(),
                self.wf(),
            decreases n - i,
        {
            let amt = list[i].1;
            proof {
                assert(list@.take(i as int + 1) =~= list@.take(i as int).push(list@[i as int]));
                lemma_pool_push_total(list@.take(i as int), list@[i as int]);
            }
            if incoming > u64::MAX - amt {
                proof {
                    lemma_pool_total_split(list@, i as int + 1);
                    lemma_pool_total_nonneg(list@.skip(i as int + 1));
                    lemma_pool_total_nonneg(self.players@[pi as int].mana_pool.entries@);
                }
                return Err(GameError::ManaPoolOverflow);
            }
            incoming = incoming + amt;
            i = i + 1;
        }
        proof {
            assert(list@.take(n as int) =~= list@);
        }
        proof {
            assert(self.players@[pi as int].wf());
        }
        let pool_total_now = self.players[pi].mana_pool.get_generic_mana();
        if pool_total_now > u64::MAX - incoming {
            proof {
                assert(pool_total_now == old(self).players@[pi as int].mana_pool.total());
                assert(incoming == pool_total(mana_types@));
            }
            return Err(GameError::ManaPoolOverflow);
        }
        // The pool can hold everything; add entry by entry.
        let ghost pre = *self;
        let ghost pool0 = self.players@[pi as int].mana_pool;
        let mut j: usize = 0;
        proof {
            assert(list@.take(0) =~= Seq::<(ManaType, u64)>::empty());
        }
        while j < n
            invariant
                n == list@.len(),
                j <= n,
                same_but_players(pre, *self),
                self.players@.len() == pre.players@.len(),
                0 <= pi < self.players@.len(),
                pool0 == pre.players@[pi as int].mana_pool,
                pool0.wf(),
                pool0.total() + pool_total(list@) <= u64::MAX,
                forall|k: int|
                    0 <= k < pre.players@.len() && k != pi ==> self.players@[k] == pre.players@[k],
                player_same_but_pool(pre.players@[pi as int], self.players@[pi as int]),
                self.players@[pi as int].mana_pool.wf(),
                self.players@[pi as int].mana_pool.total() == pool0.total() + pool_total(
                    list@.take(j as int),
                ),
                forall|t: ManaType|
                    self.players@[pi as int].mana_pool.amount_of(t) == pool0.amount_of(t)
                        + pool_amount_sum(list@.take(j as int), t),
                self.wf(),
            decreases n - j,
        {
            let (mt, amt) = list[j];
            proof {
                assert(list@.take(j as int + 1) =~= list@.take(j as int).push(list@[j as int]));
                lemma_pool_push_total(list@.take(j as int), list@[j as int]);
                lemma_pool_total_split(list@, j as int + 1);
                lemma_pool_total_nonneg(list@.skip(j as int + 1));
            }
            let p = &mut self.players[pi];
            p.mana_pool.add_mana(mt, amt);
            proof {
                assert forall|t: ManaType|
                    self.players@[pi as int].mana_pool.amount_of(t) == pool0.amount_of(t)
                        + pool_amount_sum(list@.take(j as int + 1), t) by {
                    lemma_pool_amount_sum_push(list@.take(j as int), list@[j as int], t);
                }
                assert(self.wf()) by {
                    assert forall|k: int|
                        0 <= k < self.players@.len() implies (#[trigger] self.players@[k]).wf()
                        && self.players@[k].id == k by {
                        if k != pi {
                            assert(self.players@[k] == pre.players@[k]);
                        }
                    }
                    assert forall|p2: int, i2: int|
                        0 <= p2 < self.players@.len() && 0 <= i2
                            < self.players@[p2].hand@.len() implies (
                    #[trigger] self.players@[p2].hand@[i2]).owner < self.players@.len() by {
                        assert(self.players@[p2].hand@ == pre.players@[p2].hand@);
                    }
                    assert forall|p2: int, i2: int|
                        0 <= p2 < self.players@.len() && 0 <= i2
                            < self.players@[p2].library@.len() implies (
                    #[trigger] self.players@[p2].library@[i2]).owner < self.players@.len() by {
                        assert(self.players@[p2].library@ == pre.players@[p2].library@);
                    }
                }
            }
            j = j + 1;
        }
        proof {
            assert(list@.take(n as int) =~= list@);
        }
        Ok(())
    }

    /// Position of the player with the given id, if any.
    pub(crate) fn find_player(&self, player_id: PlayerId) -> (r: Option<usize>)
        ensures
            match r {
                Some(i) => i as int == player_idx(self.players@, player_id) && i
                    < self.players@.len() && self.players@[i as int].id == player_id,
                None => player_idx(self.players@, player_id) == -1,
            },
    {
        let n = self.players.len();
        let mut i: usize = 0;
        while i < n
            invariant
                n == self.players@.len(),
                i <= n,
                forall|j: int| 0 <= j < i ==> (#[trigger] self.players@[j]).id != player_id,
            decreases n - i,
        {
            if self.players[i].id == player_id {
                proof {
                    crate::game::lemma_player_idx_at(self.players@, player_id, i as int);
                }
                return Some(i);
            }
            i = i + 1;
        }
        proof {
            lemma_player_idx_props(self.players@, player_id);
        }
        None
    }

    /// A phase ended: empty every player's mana pool.
    pub fn handle_phase_ended(&mut self, phase_type: crate::turns::PhaseType) -> (r: Result<
        (),
        GameError,
    >)
        requires
            old(self).wf(),
        ensures
            final(self).wf(),
            pools_emptied_rel(*old(self), *final(self)),
            r is Ok,
        decreases 0int, 0int,
    {
        self.empty_mana_pools();
        proof {
            lemma_pools_emptied_wf(*old(self), *self);
        }
        Ok(())
    }

    /// A step ended: empty every player's mana pool.
    pub fn handle_step_ended(&mut self, step_type: crate::turns::StepType) -> (r: Result<
        (),
        GameError,
    >)
        requires
            old(self).wf(),
        ensures
            final(self).wf(),
            pools_emptied_rel(*old(self), *final(self)),
            r is Ok,
        decreases 0int, 0int,
    {
        self.empty_mana_pools();
        proof {
            lemma_pools_emptied_wf(*old(self), *self);
        }
        Ok(())
    }

    /// Damage is about to be dealt: the hook for future replacement and
    /// prevention effects. With none implemented, it immediately emits the
    /// damage-dealt event.
    pub fn handle_damage_about_to_be_dealt(
        &mut self,
        source_id: ObjectId,
        target_ref: &TargetRef,
        amount: u64,
    ) -> (r: Result<(), GameError>)
        requires
            old(self).wf(),
        ensures
            final(self).wf(),
            damage_dealt_rel(*old(self), *final(self), *target_ref, amount, r),
        decreases 1int, 0int,
    {
        // Replacement-effect processing would run here.
        self.handle_event(
            &GameEvent::DamageDealt { source_id, target_ref: *target_ref, amount },
        )
    }

    /// Deal damage: a player loses life; a battlefield creature gets the
    /// damage marked on it; anything else cannot be dealt damage.
    pub fn handle_damage_dealt(
        &mut self,
        source_id: ObjectId,
        target_ref: &TargetRef,
        amount: u64,
    ) -> (r: Result<(), GameError>)
        requires
            old(self).wf(),
        ensures
            final(self).wf(),
            damage_dealt_rel(*old(self), *final(self), *target_ref, amount, r),
        decreases 0int, 0int,
    {
        match target_ref.ref_id {
            TargetRefId::Player(player_id) => {
                let pi = match self.find_player(player_id) {
                    None => {
                        return Err(GameError::PlayerNotFound);
                    },
                    Some(i) => i,
                };
                let life = self.players[pi].life_total;
                let dmg: i64 = if amount > i64::MAX as u64 {
                    i64::MAX
                } else {
                    amount as i64
                };
                let new_life: i64 = if life >= i64::MIN + dmg {
                    life - dmg
                } else {
                    i64::MIN
                };
                self.players[pi].life_total = new_life;
                proof {
                    let pre = *old(self);
                    assert(self.players@ == pre.players@.update(
                        pi as int,
                        Player { life_total: new_life, ..pre.players@[pi as int] },
                    ));
                    assert(self.wf()) by {
                        lemma_players_update_keeps_wf(pre, *self, pi as int);
                    }
                }
                Ok(())
            },
            TargetRefId::Object(object_id) => {
                let bi = match self.bf_find(object_id) {
                    None => {
                        return Err(GameError::PermanentNotFound);
                    },
                    Some(i) => i,
                };
                let has_aspect = self.battlefield[bi].state.creature.is_some();
                if !has_aspect {
                    return Err(GameError::NotDamageable);
                }
                let ghost pre = *old(self);
                let obj = &mut self.battlefield[bi];
                match &mut obj.state.creature {
                    Some(aspect) => {
                        let marked = aspect.damage_marked;
                        aspect.damage_marked = if marked <= u64::MAX - amount {
                            marked + amount
                        } else {
                            u64::MAX
                        };
                    },
                    None => {
                        proof {
                            assert(false);
                        }
                    },
                }
                proof {
                    let obj0 = pre.battlefield@[bi as int];
                    let aspect0 = obj0.state.creature->0;
                    assert(self.battlefield@ == pre.battlefield@.update(
                        bi as int,
                        GameObj {
                            state: BattlefieldState {
                                creature: Some(
                                    CreatureAspect {
                                        damage_marked: marked_after_damage(
                                            aspect0.damage_marked,
                                            amount,
                                        ),
                                        ..aspect0
                                    },
                                ),
                                ..obj0.state
                            },
                            ..obj0
                        },
                    ));
                    assert(self.wf()) by {
                        lemma_bf_update_keeps_wf(pre, *self, bi as int);
                    }
                }
                Ok(())
            },
        }
    }

    /// A permanent is destroyed: it leaves the battlefield for its owner's
    /// graveyard. Regeneration is not implemented; the reason is recorded
    /// for future use.
    pub fn handle_permanent_destroyed(&mut self, permanent_id: ObjectId, reason: DeathReason) -> (r:
        Result<(), GameError>)
        requires
            old(self).wf(),
        ensures
            final(self).wf(),
            to_graveyard_rel(*old(self), *final(self), permanent_id, r),
        decreases 0int, 0int,
    {
        self.remove_to_graveyard(permanent_id)
    }

    /// A creature with toughness 0 or less is put into its owner's
    /// graveyard; this path cannot be replaced by regeneration.
    pub fn handle_creature_zero_toughness(&mut self, creature_id: ObjectId) -> (r: Result<
        (),
        GameError,
    >)
        requires
            old(self).wf(),
        ensures
            final(self).wf(),
            to_graveyard_rel(*old(self), *final(self), creature_id, r),
        decreases 0int, 0int,
    {
        self.remove_to_graveyard(creature_id)
    }

    /// Move the battlefield object with the given id to its owner's
    /// graveyard.
    fn remove_to_graveyard(&mut self, oid: ObjectId) -> (r: Result<(), GameError>)
        requires
            old(self).wf(),
        ensures
            final(self).wf(),
            to_graveyard_rel(*old(self), *final(self), oid, r),
    {
        let obj = match self.bf_remove(oid) {
            None => {
                return Err(GameError::PermanentNotFound);
            },
            Some(o) => o,
        };
        let ghost pre = *old(self);
        let ghost bi = first_idx_by_id(pre.battlefield@, oid);
        proof {
            lemma_first_idx_props(pre.battlefield@, oid);
            // The battlefield shrank to a subsequence: uniqueness and
            // owner validity carry over.
            assert forall|a: int, b: int|
                0 <= a < b < self.battlefield@.len() implies (#[trigger] self.battlefield@[a]).id
                != (#[trigger] self.battlefield@[b]).id by {
                lemma_remove_points(pre.battlefield@, bi, a);
                lemma_remove_points(pre.battlefield@, bi, b);
            }
            assert forall|k: int|
                0 <= k < self.battlefield@.len() implies (#[trigger] self.battlefield@[k]).owner
                < self.players@.len() by {
                lemma_remove_points(pre.battlefield@, bi, k);
            }
            // The owner names a real player.
            lemma_player_idx_under_wf(self.players@, obj.owner);
        }
        let owner_id = obj.owner;
        let graveyard_obj = obj.to_graveyard();
        let p = self.get_player_mut(owner_id);
        p.graveyard.push(graveyard_obj);
        proof {
            let mid = Game { battlefield: self.battlefield, ..pre };
            assert(self.players@ == mid.players@.update(
                owner_id as int,
                Player {
                    graveyard: self.players@[owner_id as int].graveyard,
                    ..mid.players@[owner_id as int]
                },
            ));
            assert(self.wf()) by {
                lemma_players_update_keeps_wf(mid, *self, owner_id as int);
                assert(mid.wf());
            }
        }
        Ok(())
    }
}

/// Index of the first ability of mana type in the list, or -1.
pub open spec fn first_mana_ability_idx(abs: Seq<AbilityDefinition>) -> int
    decreases abs.len(),
{
    if abs.len() == 0 {
        -1
    } else if abs[0].ability_type == AbilityType::Mana {
        0
    } else {
        let rest = first_mana_ability_idx(abs.drop_first());
        if rest < 0 {
            -1
        } else {
            rest + 1
        }
    }
}

/// What activating a mana ability of the permanent `source_id` does.
///
/// The permanent must exist, be controlled by the player, and carry a
/// mana ability (the first mana-typed ability counts) whose effect
/// produces mana. Its costs are checked and paid in order; when they are
/// payable — for a basic land's single tap cost, when the permanent is
/// untapped — the payment goes through exactly and the produced mana is
/// added to the controller's pool. An unpayable cost fails the
/// activation, with nothing paid when the upfront check already fails.
pub open spec fn mana_ability_rel(
    pre: Game,
    post: Game,
    source_id: ObjectId,
    player_id: PlayerId,
    r: Result<(), GameError>,
) -> bool {
    let bi = first_idx_by_id(pre.battlefield@, source_id);
    if bi < 0 {
        r == Err::<(), GameError>(GameError::PermanentNotFound) && post == pre
    } else {
        let obj = pre.battlefield@[bi];
        if obj.state.controller != player_id {
            r == Err::<(), GameError>(GameError::NotController) && post == pre
        } else {
            match obj.characteristics.abilities {
                None => r == Err::<(), GameError>(GameError::NoAbilities) && post == pre,
                Some(abs) => {
                    let ai = first_mana_ability_idx(abs@);
                    if ai < 0 {
                        r == Err::<(), GameError>(GameError::NoManaAbility) && post == pre
                    } else {
                        match abs@[ai].effect_details {
                            EffectDetails::ProduceMana { mana_produced } => {
                                exists|mid: Game, r0: Result<(), GameError>|
                                    {
                                        &&& #[trigger] crate::game_costs::cost_payment_rel(
                                            pre,
                                            mid,
                                            abs@[ai].costs@,
                                            player_id,
                                            source_id,
                                            r0,
                                        )
                                        &&& if r0 is Err {
                                            r == r0 && post == mid
                                        } else {
                                            mana_added_rel(mid, post, player_id, mana_produced@, r)
                                        }
                                    }
                            },
                            _ => r == Err::<(), GameError>(GameError::InvalidManaAbility) && post
                                == pre,
                        }
                    }
                },
            }
        }
    }
}

impl Game {
    /// Activate a mana ability of the permanent `source_id` on behalf of
    /// `controller_id`: verify control, find the mana ability, pay its
    /// costs, and add the produced mana to the controller's pool.
    #[verifier::loop_isolation(false)]
    #[verifier::rlimit(60)]
    pub fn handle_mana_ability_activated(
        &mut self,
        source_id: ObjectId,
        controller_id: PlayerId,
    ) -> (r: Result<(), GameError>)
        requires
            old(self).wf(),
        ensures
            final(self).wf(),
            mana_ability_rel(*old(self), *final(self), source_id, controller_id, r),
        decreases 1int, 0int,
    {
        let bi = match self.bf_find(source_id) {
            None => {
                return Err(GameError::PermanentNotFound);
            },
            Some(i) => i,
        };
        if self.battlefield[bi].state.controller != controller_id {
            return Err(GameError::NotController);
        }
        // Extract the first mana ability's costs and production.
        let (costs, mana_produced): (Vec<Cost>, Vec<(ManaType, u64)>) = {
            match &self.battlefield[bi].characteristics.abilities {
                None => {
                    return Err(GameError::NoAbilities);
                },
                Some(abs) => {
                    let ai = match find_mana_ability(abs) {
                        None => {
                            return Err(GameError::NoManaAbility);
                        },
                        Some(ai) => ai,
                    };
                    match &abs[ai].effect_details {
                        EffectDetails::ProduceMana { mana_produced } => {
                            (
                                crate::abilities::copy_costs(&abs[ai].costs),
                                copy_mana_amounts(mana_produced),
                            )
                        },
                        _ => {
                            return Err(GameError::InvalidManaAbility);
                        },
                    }
                },
            }
        };
        // Check and pay the ability's costs in order.
        let ghost pre = *old(self);
        let res_pay = self.pay_cost_list(&costs, controller_id, source_id);
        match res_pay {
            Ok(_) => {},
            Err(e) => {
                return Err(e);
            },
        }
        let ghost mid2 = *self;
        let r = self.handle_event(
            &GameEvent::ManaAdded { source_id, player_id: controller_id, mana_types: mana_produced },
        );
        proof {
            assert(crate::game_costs::cost_payment_rel(
                pre,
                mid2,
                costs@,
                controller_id,
                source_id,
                Ok::<(), GameError>(()),
            ));
            assert(mana_added_rel(mid2, *self, controller_id, mana_produced@, r));
        }
        r
    }
}

proof fn lemma_first_mana_ability_at(abs: Seq<AbilityDefinition>, i: int)
    requires
        0 <= i < abs.len(),
        abs[i].ability_type == AbilityType::Mana,
        forall|j: int| 0 <= j < i ==> (#[trigger] abs[j]).ability_type != AbilityType::Mana,
    ensures
        first_mana_ability_idx(abs) == i,
    decreases i,
{
    if i > 0 {
        assert forall|j: int|
            0 <= j < i - 1 implies (#[trigger] abs.drop_first()[j]).ability_type
            != AbilityType::Mana by {
            assert(abs.drop_first()[j] == abs[j + 1]);
        }
        assert(abs.drop_first()[i - 1] == abs[i]);
        lemma_first_mana_ability_at(abs.drop_first(), i - 1);
    }
}

/// Position of the first mana-typed ability, if any.
fn find_mana_ability(abs: &Vec<AbilityDefinition>) -> (r: Option<usize>)
    ensures
        match r {
            Some(i) => i as int == first_mana_ability_idx(abs@) && i < abs@.len(),
            None => first_mana_ability_idx(abs@) == -1,
        },
{
    let m = abs.len();
    let mut k: usize = 0;
    while k < m
        invariant
            m == abs@.len(),
            k <= m,
            forall|j: int| 0 <= j < k ==> (#[trigger] abs@[j]).ability_type != AbilityType::Mana,
        decreases m - k,
    {
        if matches!(abs[k].ability_type, AbilityType::Mana) {
            proof {
                lemma_first_mana_ability_at(abs@, k as int);
            }
            return Some(k);
        }
        k = k + 1;
    }
    proof {
        lemma_first_mana_ability_none(abs@);
    }
    None
}

proof fn lemma_first_mana_ability_none(abs: Seq<AbilityDefinition>)
    requires
        forall|j: int| 0 <= j < abs.len() ==> (#[trigger] abs[j]).ability_type != AbilityType::Mana,
    ensures
        first_mana_ability_idx(abs) == -1,
    decreases abs.len(),
{
    if abs.len() > 0 {
        assert forall|j: int|
            0 <= j < abs.drop_first().len() implies (#[trigger] abs.drop_first()[j]).ability_type
            != AbilityType::Mana by {
            assert(abs.drop_first()[j] == abs[j + 1]);
        }
        lemma_first_mana_ability_none(abs.drop_first());
    }
}

impl Game {
    /// Run the batch of state-based-action checks.
    ///
    /// Players at 0 or less life would lose the game; that consequence is
    /// a documented gap and is not enforced. Creatures with toughness 0
    /// or less go straight to their owners' graveyards, then creatures
    /// with lethal damage marked are destroyed. Repeating the check after
    /// the moves changes nothing.
    pub fn handle_check_state_based_actions(&mut self) -> (r: Result<(), GameError>)
        requires
            old(self).wf(),
        ensures
            final(self).wf(),
            r is Ok,
            sba_rel(*old(self), *final(self)),
        decreases 1int, 0int,
    {
        let ghost pre = *self;
        // 704.5a: life-total loss is checked here once implemented.
        self.sba_scan(false);
        let ghost mid = *self;
        self.sba_scan(true);
        proof {
            lemma_sba_filters(pre.battlefield@);
            assert(mid.battlefield@ == sba_survivors_phase(pre.battlefield@, false));
            assert forall|p: int| 0 <= p < pre.players@.len() implies (
            #[trigger] self.players@[p]).graveyard@ =~= pre.players@[p].graveyard@
                + sba_gy_gain_zt(pre.battlefield@, p) + sba_gy_gain_lethal(
                pre.battlefield@,
                p,
            ) by {
                assert(mid.battlefield@.filter(sba_gain_pred(p, true)) == pre.battlefield@.filter(
                    sba_gain_pred(p, true),
                ));
                assert(sba_gy_gain_phase(mid.battlefield@, p, true) == sba_gy_gain_phase(
                    pre.battlefield@,
                    p,
                    true,
                ));
            }
        }
        Ok(())
    }

    /// One scan of the battlefield for one state-based-action phase: each
    /// dead creature found is removed to its owner's graveyard through
    /// the event dispatcher, in battlefield order.
    #[verifier::loop_isolation(false)]
    #[verifier::rlimit(100)]
    fn sba_scan(&mut self, lethal_phase: bool)
        requires
            old(self).wf(),
        ensures
            final(self).wf(),
            same_but_players_battlefield(*old(self), *final(self)),
            final(self).battlefield@ =~= sba_survivors_phase(
                old(self).battlefield@,
                lethal_phase,
            ),
            final(self).players@.len() == old(self).players@.len(),
            forall|p: int|
                0 <= p < old(self).players@.len() ==> player_same_but_graveyard(
                    old(self).players@[p],
                    #[trigger] final(self).players@[p],
                ) && final(self).players@[p].graveyard@ =~= old(self).players@[p].graveyard@
                    + sba_gy_gain_phase(old(self).battlefield@, p, lethal_phase),
        decreases 0int, 2int,
    {
        broadcast use vstd::seq_lib::group_filter_ensures;

        let ghost pre = *self;
        let ghost notdead = sba_alive_pred(lethal_phase);
        let ghost mut j: int = 0;
        let mut i: usize = 0;
        proof {
            reveal(Seq::filter);
            assert(pre.battlefield@.take(0) =~= Seq::<GameObj<BattlefieldState>>::empty());
            assert(pre.battlefield@.skip(0) =~= pre.battlefield@);
            assert(self.battlefield@ =~= pre.battlefield@.take(0).filter(notdead)
                + pre.battlefield@.skip(0));
            assert forall|p: int| 0 <= p < pre.players@.len() implies sba_gy_gain_phase(
                pre.battlefield@.take(0),
                p,
                lethal_phase,
            ) =~= Seq::<GameObj<crate::game_objects::GraveyardState>>::empty() by {}
        }
        while i < self.battlefield.len()
            invariant
                self.wf(),
                pre.wf(),
                notdead == sba_alive_pred(lethal_phase),
                same_but_players_battlefield(pre, *self),
                self.players@.len() == pre.players@.len(),
                0 <= j <= pre.battlefield@.len(),
                i == pre.battlefield@.take(j).filter(notdead).len(),
                self.battlefield@ =~= pre.battlefield@.take(j).filter(notdead)
                    + pre.battlefield@.skip(j),
                forall|p: int|
                    0 <= p < pre.players@.len() ==> player_same_but_graveyard(
                        pre.players@[p],
                        #[trigger] self.players@[p],
                    ) && self.players@[p].graveyard@ =~= pre.players@[p].graveyard@
                        + sba_gy_gain_phase(pre.battlefield@.take(j), p, lethal_phase),
            decreases pre.battlefield@.len() - j,
        {
            proof {
                assert(j < pre.battlefield@.len()) by {
                    if j == pre.battlefield@.len() {
                        assert(pre.battlefield@.skip(j) =~= Seq::<
                            GameObj<BattlefieldState>,
                        >::empty());
                        assert(self.battlefield@.len() == i);
                    }
                }
                assert(self.battlefield@[i as int] == pre.battlefield@.skip(j)[0]);
                assert(pre.battlefield@.skip(j)[0] == pre.battlefield@[j]);
            }
            let ghost cur = pre.battlefield@[j];
            let dead = is_sba_target(&self.battlefield[i], lethal_phase);
            proof {
                assert(pre.battlefield@.take(j + 1) =~= pre.battlefield@.take(j).push(cur));
                lemma_filter_push(pre.battlefield@.take(j), notdead, cur);
            }
            if dead {
                let id = self.battlefield[i].id;
                proof {
                    // The battlefield keys are unique, so the handler
                    // removes exactly this object.
                    assert forall|k: int| 0 <= k < i implies (#[trigger] self.battlefield@[k]).id
                        != id by {
                        assert(self.battlefield@[k].id != self.battlefield@[i as int].id);
                    }
                    lemma_first_idx_at(self.battlefield@, id, i as int);
                }
                let ghost before = *self;
                let ev = if lethal_phase {
                    GameEvent::PermanentDestroyed {
                        permanent_id: id,
                        reason: DeathReason::LethalDamage,
                    }
                } else {
                    GameEvent::CreatureZeroToughness { creature_id: id }
                };
                let res = self.handle_event(&ev);
                proof {
                    assert(to_graveyard_rel(before, *self, id, res));
                    let owner = cur.owner as int;
                    assert(before.battlefield@[i as int].owner < before.players@.len());
                    lemma_player_idx_under_wf(before.players@, cur.owner);
                    assert(res is Ok);
                    // The battlefield loses exactly the scanned object.
                    assert(self.battlefield@ =~= pre.battlefield@.take(j + 1).filter(notdead)
                        + pre.battlefield@.skip(j + 1)) by {
                        let a = pre.battlefield@.take(j).filter(notdead);
                        assert(before.battlefield@.remove(i as int) =~= a + pre.battlefield@.skip(
                            j + 1,
                        )) by {
                            assert(pre.battlefield@.skip(j).drop_first() =~= pre.battlefield@.skip(
                                j + 1,
                            ));
                            assert(before.battlefield@ =~= a + pre.battlefield@.skip(j));
                        }
                    }
                    // The owner's graveyard gains the object.
                    assert forall|p: int|
                        0 <= p < pre.players@.len() implies player_same_but_graveyard(
                        pre.players@[p],
                        #[trigger] self.players@[p],
                    ) && self.players@[p].graveyard@ =~= pre.players@[p].graveyard@
                        + sba_gy_gain_phase(pre.battlefield@.take(j + 1), p, lethal_phase) by {
                        let gp = sba_gain_pred(p, lethal_phase);
                        lemma_filter_push(pre.battlefield@.take(j), gp, cur);
                        if p == owner {
                            assert(self.players@[p].graveyard@ =~= before.players@[p].graveyard@
                                .push(spec_to_graveyard(cur)));
                            assert(sba_gy_gain_phase(pre.battlefield@.take(j + 1), p, lethal_phase)
                                =~= sba_gy_gain_phase(
                                pre.battlefield@.take(j),
                                p,
                                lethal_phase,
                            ).push(spec_to_graveyard(cur)));
                        } else {
                            assert(self.players@[p] == before.players@[p]);
                            assert(sba_gy_gain_phase(pre.battlefield@.take(j + 1), p, lethal_phase)
                                =~= sba_gy_gain_phase(pre.battlefield@.take(j), p, lethal_phase));
                        }
                    }
                    j = j + 1;
                }
            } else {
                proof {
                    assert(self.battlefield@ =~= pre.battlefield@.take(j + 1).filter(notdead)
                        + pre.battlefield@.skip(j + 1)) by {
                        let a = pre.battlefield@.take(j).filter(notdead);
                        assert(pre.battlefield@.skip(j).drop_first() =~= pre.battlefield@.skip(
                            j + 1,
                        ));
                        assert(self.battlefield@ =~= a + pre.battlefield@.skip(j));
                        assert(pre.battlefield@.take(j + 1).filter(notdead) =~= a.push(cur));
                    }
                    assert forall|p: int|
                        0 <= p < pre.players@.len() implies sba_gy_gain_phase(
                        pre.battlefield@.take(j + 1),
                        p,
                        lethal_phase,
                    ) =~= sba_gy_gain_phase(pre.battlefield@.take(j), p, lethal_phase) by {
                        let gp = sba_gain_pred(p, lethal_phase);
                        lemma_filter_push(pre.battlefield@.take(j), gp, cur);
                    }
                    j = j + 1;
                }
                i = i + 1;
            }
        }
        proof {
            assert(pre.battlefield@.skip(j) =~= Seq::<GameObj<BattlefieldState>>::empty()) by {
                if j < pre.battlefield@.len() {
                    assert(self.battlefield@.len() > i);
                }
            }
            assert(j == pre.battlefield@.len());
            assert(pre.battlefield@.take(j) =~= pre.battlefield@);
            assert(self.battlefield@ =~= pre.battlefield@.filter(notdead));
        }
    }
}

/// Whether the object is dead for the given state-based-action phase.
fn is_sba_target(obj: &GameObj<BattlefieldState>, lethal_phase: bool) -> (r: bool)
    ensures
        r == sba_phase_dead(*obj, lethal_phase),
{
    if !obj.has_card_type(&CardType::Creature) {
        return false;
    }
    let toughness = match obj.characteristics.toughness {
        Some(t) => t,
        None => {
            return false;
        },
    };
    if lethal_phase {
        if toughness <= 0 {
            return false;
        }
        match &obj.state.creature {
            Some(aspect) => aspect.damage_marked >= toughness as u64,
            None => false,
        }
    } else {
        toughness <= 0
    }
}

/// Pushing an element through a filter keeps it exactly when the
/// predicate accepts it.
proof fn lemma_filter_push<A>(s: Seq<A>, pred: spec_fn(A) -> bool, x: A)
    ensures
        s.push(x).filter(pred) =~= if pred(x) {
            s.filter(pred).push(x)
        } else {
            s.filter(pred)
        },
{
    reveal(Seq::filter);
    assert(s.push(x).drop_last() =~= s);
    assert(s.push(x).last() == x);
    assert(s.push(x).len() == s.len() + 1);
}

/// Surviving the zero-toughness phase and then the lethal phase is
/// surviving the whole batch; and the lethal creatures among the
/// survivors of the first phase are the lethal creatures of the original
/// battlefield.
proof fn lemma_sba_filters(s: Seq<GameObj<BattlefieldState>>)
    ensures
        sba_survivors_phase(sba_survivors_phase(s, false), true) =~= sba_survivors(s),
        forall|p: int| #![trigger s.filter(sba_gain_pred(p, true))]
            sba_survivors_phase(s, false).filter(sba_gain_pred(p, true)) =~= s.filter(
            sba_gain_pred(p, true)),
    decreases s.len(),
{
    if s.len() == 0 {
        reveal(Seq::filter);
        assert(sba_survivors_phase(s, false) =~= s);
    } else {
        lemma_sba_filters(s.drop_last());
        let x = s.last();
        let d = s.drop_last();
        assert(d.push(x) =~= s);
        lemma_filter_push(d, sba_alive_pred(false), x);
        lemma_filter_push(d, sba_alive_all_pred(), x);
        lemma_filter_push(sba_survivors_phase(d, false), sba_alive_pred(true), x);
        assert(sba_survivors_phase(sba_survivors_phase(s, false), true) =~= sba_survivors(s));
        assert forall|p: int| #![trigger s.filter(sba_gain_pred(p, true))]
            sba_survivors_phase(s, false).filter(sba_gain_pred(p, true)) =~= s.filter(
            sba_gain_pred(p, true)) by {
            lemma_filter_push(d, sba_gain_pred(p, true), x);
            if !sba_phase_dead(x, false) {
                assert(sba_survivors_phase(s, false) =~= sba_survivors_phase(d, false).push(x));
                lemma_filter_push(sba_survivors_phase(d, false), sba_gain_pred(p, true), x);
            } else {
                assert(sba_survivors_phase(s, false) =~= sba_survivors_phase(d, false));
                // A zero-toughness creature is not lethally damaged.
                assert(!sba_phase_dead(x, true));
                assert(!sba_gain_pred(p, true)(x));
            }
        }
    }
}

/// An element of `s.remove(i)` is an element of `s`, shifted around the
/// removal point.
proof fn lemma_remove_points<A>(s: Seq<A>, i: int, k: int)
    requires
        0 <= i < s.len(),
        0 <= k < s.remove(i).len(),
    ensures
        s.remove(i)[k] == if k < i {
            s[k]
        } else {
            s[k + 1]
        },
{
}

/// Emptying the pools preserves game well-formedness.
pub(crate) proof fn lemma_pools_emptied_wf(pre: Game, post: Game)
    requires
        pre.wf(),
        pools_emptied_rel(pre, post),
    ensures
        post.wf(),
{
    assert forall|k: int|
        0 <= k < post.players@.len() implies (#[trigger] post.players@[k]).wf()
        && post.players@[k].id == k by {
        assert(pre.players@[k].wf());
    }
    assert forall|p2: int, i2: int|
        0 <= p2 < post.players@.len() && 0 <= i2 < post.players@[p2].hand@.len() implies (
    #[trigger] post.players@[p2].hand@[i2]).owner < post.players@.len() by {
        assert(post.players@[p2].hand@ == pre.players@[p2].hand@);
    }
    assert forall|p2: int, i2: int|
        0 <= p2 < post.players@.len() && 0 <= i2 < post.players@[p2].library@.len() implies (
    #[trigger] post.players@[p2].library@[i2]).owner < post.players@.len() by {
        assert(post.players@[p2].library@ == pre.players@[p2].library@);
    }
}

/// Updating one player in a way that keeps that player's own
/// well-formedness, id, and the consistency and owner-validity of their
/// hand and library preserves game well-formedness.
pub(crate) proof fn lemma_players_update_keeps_wf(pre: Game, post: Game, pi: int)
    requires
        pre.wf(),
        0 <= pi < pre.players@.len(),
        post.players@ == pre.players@.update(pi, post.players@[pi]),
        post.players@[pi].id == pre.players@[pi].id,
        post.players@[pi].mana_pool.wf(),
        post.players@[pi].hand == pre.players@[pi].hand || (forall|i2: int|
            0 <= i2 < post.players@[pi].hand@.len() ==> (
            #[trigger] post.players@[pi].hand@[i2]).creature_consistent()
                && post.players@[pi].hand@[i2].owner < pre.players@.len()),
        post.players@[pi].library == pre.players@[pi].library || (forall|i2: int|
            0 <= i2 < post.players@[pi].library@.len() ==> (
            #[trigger] post.players@[pi].library@[i2]).creature_consistent()
                && post.players@[pi].library@[i2].owner < pre.players@.len()),
        same_but_players(pre, post),
    ensures
        post.wf(),
{
    assert(post.players@.len() == pre.players@.len());
    assert forall|k: int|
        0 <= k < post.players@.len() implies (#[trigger] post.players@[k]).wf()
        && post.players@[k].id == k by {
        assert(pre.players@[k].wf());
        if k != pi {
            assert(post.players@[k] == pre.players@[k]);
        } else {
            if post.players@[pi].hand == pre.players@[pi].hand {
                assert(post.players@[k].hand@ == pre.players@[k].hand@);
            }
            if post.players@[pi].library == pre.players@[pi].library {
                assert(post.players@[k].library@ == pre.players@[k].library@);
            }
        }
    }
    assert forall|p2: int, i2: int|
        0 <= p2 < post.players@.len() && 0 <= i2 < post.players@[p2].hand@.len() implies (
    #[trigger] post.players@[p2].hand@[i2]).owner < post.players@.len() by {
        if p2 != pi || post.players@[pi].hand == pre.players@[pi].hand {
            assert(post.players@[p2].hand@ == pre.players@[p2].hand@);
        }
    }
    assert forall|p2: int, i2: int|
        0 <= p2 < post.players@.len() && 0 <= i2 < post.players@[p2].library@.len() implies (
    #[trigger] post.players@[p2].library@[i2]).owner < post.players@.len() by {
        if p2 != pi || post.players@[pi].library == pre.players@[pi].library {
            assert(post.players@[p2].library@ == pre.players@[p2].library@);
        }
    }
}

/// Updating one battlefield object in a way that keeps its id and owner
/// preserves game well-formedness.
pub(crate) proof fn lemma_bf_update_keeps_wf(pre: Game, post: Game, bi: int)
    requires
        pre.wf(),
        0 <= bi < pre.battlefield@.len(),
        post.battlefield@ == pre.battlefield@.update(bi, post.battlefield@[bi]),
        post.battlefield@.len() == pre.battlefield@.len(),
        post.battlefield@[bi].id == pre.battlefield@[bi].id,
        post.battlefield@[bi].owner == pre.battlefield@[bi].owner,
        crate::game::same_but_battlefield(pre, post),
    ensures
        post.wf(),
{
    assert forall|a: int, b: int|
        0 <= a < b < post.battlefield@.len() implies (#[trigger] post.battlefield@[a]).id != (
    #[trigger] post.battlefield@[b]).id by {
        assert(pre.battlefield@[a].id != pre.battlefield@[b].id);
        assert(post.battlefield@[a].id == pre.battlefield@[a].id);
        assert(post.battlefield@[b].id == pre.battlefield@[b].id);
    }
    assert forall|k: int|
        0 <= k < post.battlefield@.len() implies (#[trigger] post.battlefield@[k]).owner
        < post.players@.len() by {
        assert(post.battlefield@[k].owner == pre.battlefield@[k].owner);
    }
}

} // verus!
