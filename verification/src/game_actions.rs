use vstd::prelude::*;
use crate::abilities::{AbilityDefinition, AbilityType, EffectDetails, ability_eq};
use crate::card_types::CardType;
use crate::costs::Cost;
use crate::errors::GameError;
use crate::game::{
    Game, lemma_player_idx_props, lemma_player_idx_under_wf, player_idx, same_but_battlefield,
    same_but_players, same_but_players_battlefield,
};
use crate::game_costs::can_pay_mana_model;
use crate::game_effects::{effect_rel, spell_abilities_check, spell_targets_check};
use crate::game_events::sba_rel;
use crate::game_objects::{
    BattlefieldState, Characteristics, GameObj, GraveyardState, StackObjectType, StackState,
    chars_any_nonpermanent, chars_any_permanent,
};
use crate::game_turns::advance_rel;
use crate::ids::{ObjectId, PlayerId, fresh_object_id};
use crate::mana::snapshot_of;
use crate::obj_lookup::{first_idx_by_id, has_id, lemma_first_idx_props};
use crate::player::{Player, player_same_but_graveyard};
use crate::turns::PhaseType;
use crate::zone_transitions::{spec_enter_battlefield_state, spec_to_battlefield};
use crate::zones::Zone;

verus! {

/// `b` equals `a` in every field but the stack.
pub open spec fn same_but_stack(a: Game, b: Game) -> bool {
    b == (Game { stack: b.stack, ..a })
}

/// What playing a land from hand does. The checks run in order: it must
/// be the player's turn and a main phase, the stack must be empty, the
/// player must hold priority and a remaining land drop, and the card must
/// be a land in hand. On success the card moves hand-to-battlefield under
/// the player and the land-drop counter increments.
pub open spec fn play_land_rel(
    pre: Game,
    post: Game,
    player_id: PlayerId,
    card_id: ObjectId,
    r: Result<(), GameError>,
) -> bool {
    if pre.active_player_id != player_id {
        r == Err::<(), GameError>(GameError::NotYourTurn) && post == pre
    } else if pre.phase.phase_type != PhaseType::Precombat && pre.phase.phase_type
        != PhaseType::Postcombat {
        r == Err::<(), GameError>(GameError::NotMainPhase) && post == pre
    } else if pre.stack@.len() != 0 {
        r == Err::<(), GameError>(GameError::StackNotEmpty) && post == pre
    } else if pre.priority_player_id != player_id {
        r == Err::<(), GameError>(GameError::NoPriority) && post == pre
    } else {
        let pi = player_idx(pre.players@, player_id);
        if pi < 0 {
            r == Err::<(), GameError>(GameError::PlayerNotFound) && post == pre
        } else {
            let p = pre.players@[pi];
            if p.lands_played_this_turn >= p.max_lands_this_turn {
                r == Err::<(), GameError>(GameError::NoLandDropsRemaining) && post == pre
            } else {
                let hi = first_idx_by_id(p.hand@, card_id);
                if hi < 0 {
                    r == Err::<(), GameError>(GameError::CardNotFoundInHand) && post == pre
                } else if !p.hand@[hi].spec_has_card_type(CardType::Land) {
                    r == Err::<(), GameError>(GameError::NotALand) && post == pre
                } else {
                    let card = p.hand@[hi];
                    let newobj = spec_to_battlefield(card, player_id);
                    &&& r is Ok
                    &&& same_but_players_battlefield(pre, post)
                    &&& post.players@.len() == pre.players@.len()
                    &&& (forall|k: int|
                        0 <= k < pre.players@.len() && k != pi ==> post.players@[k]
                            == pre.players@[k])
                    &&& post.players@[pi].hand@ == p.hand@.remove(hi)
                    &&& post.players@[pi] == (Player {
                        hand: post.players@[pi].hand,
                        lands_played_this_turn: (p.lands_played_this_turn + 1) as u32,
                        ..p
                    })
                    &&& (has_id(pre.battlefield@, card.id) ==> post.battlefield@
                        == pre.battlefield@.update(
                        first_idx_by_id(pre.battlefield@, card.id),
                        newobj,
                    ))
                    &&& (!has_id(pre.battlefield@, card.id) ==> post.battlefield@
                        == pre.battlefield@.push(newobj))
                }
            }
        }
    }
}

/// What casting a spell from hand does. The card must be in hand and not
/// a land; a non-instant is held to sorcery-speed timing; the targets
/// must satisfy every spell ability's requirement; and the mana cost, if
/// any, must be payable and is paid. On success the card moves to the top
/// of the stack carrying its controller and targets.
pub open spec fn cast_rel(
    pre: Game,
    post: Game,
    player_id: PlayerId,
    card_id: ObjectId,
    targets: Vec<crate::targeting::TargetRef>,
    r: Result<(), GameError>,
) -> bool {
    let pi = player_idx(pre.players@, player_id);
    if pi < 0 {
        r == Err::<(), GameError>(GameError::PlayerNotFound) && post == pre
    } else {
        let p = pre.players@[pi];
        let hi = first_idx_by_id(p.hand@, card_id);
        if hi < 0 {
            r == Err::<(), GameError>(GameError::CardNotFoundInHand) && post == pre
        } else {
            let card = p.hand@[hi];
            if card.spec_has_card_type(CardType::Land) {
                r == Err::<(), GameError>(GameError::LandsCannotBeCast) && post == pre
            } else if !card.spec_has_card_type(CardType::Instant) && (pre.active_player_id
                != player_id || pre.stack@.len() != 0 || (pre.phase.phase_type
                != PhaseType::Precombat && pre.phase.phase_type != PhaseType::Postcombat)) {
                r == Err::<(), GameError>(GameError::SorcerySpeedViolation) && post == pre
            } else {
                let check = match card.characteristics.abilities {
                    Some(abs) => spell_abilities_check(pre, abs@, targets@, player_id),
                    None => Ok(true),
                };
                match check {
                    Err(e) => r == Err::<(), GameError>(e) && post == pre,
                    Ok(false) => r == Err::<(), GameError>(GameError::InvalidTargets) && post
                        == pre,
                    Ok(true) => {
                        match card.characteristics.mana_cost {
                            Some(mc) => {
                                if !can_pay_mana_model(snapshot_of(p.mana_pool), mc) {
                                    r == Err::<(), GameError>(GameError::NotEnoughManaToCast)
                                        && post == pre
                                } else {
                                    cast_moved_rel(pre, post, pi, hi, targets, true, mc, r)
                                }
                            },
                            None => cast_moved_rel(
                                pre,
                                post,
                                pi,
                                hi,
                                targets,
                                false,
                                crate::costs::ManaCost {
                                    white: 0u8,
                                    blue: 0u8,
                                    black: 0u8,
                                    red: 0u8,
                                    green: 0u8,
                                    colorless: 0u8,
                                    generic: 0u8,
                                },
                                r,
                            ),
                        }
                    },
                }
            }
        }
    }
}

/// The successful tail of a cast: pay the cost when one exists, move the
/// card from hand to the top of the stack as a spell under the caster.
pub open spec fn cast_moved_rel(
    pre: Game,
    post: Game,
    pi: int,
    hi: int,
    targets: Vec<crate::targeting::TargetRef>,
    paid: bool,
    mc: crate::costs::ManaCost,
    r: Result<(), GameError>,
) -> bool {
    let p = pre.players@[pi];
    let card = p.hand@[hi];
    let spell = GameObj {
        id: card.id,
        owner: card.owner,
        characteristics: card.characteristics,
        state: StackState {
            controller: p.id,
            targets,
            stack_object_type: StackObjectType::Spell,
            source_id: None,
        },
    };
    &&& r is Ok
    &&& post == (Game { players: post.players, stack: post.stack, ..pre })
    &&& post.stack@ == pre.stack@.push(spell)
    &&& post.players@.len() == pre.players@.len()
    &&& (forall|k: int|
        0 <= k < pre.players@.len() && k != pi ==> post.players@[k] == pre.players@[k])
    &&& post.players@[pi].hand@ == p.hand@.remove(hi)
    &&& post.players@[pi] == (Player {
        hand: post.players@[pi].hand,
        mana_pool: post.players@[pi].mana_pool,
        ..p
    })
    &&& (paid ==> snapshot_of(post.players@[pi].mana_pool) == crate::game_costs::pay_mana_model(
        snapshot_of(p.mana_pool),
        mc,
    ))
    &&& (!paid ==> post.players@[pi].mana_pool == p.mana_pool)
    &&& post.players@[pi].mana_pool.wf()
}

/// What resolving the top of the stack does: the top object is popped; a
/// permanent-typed spell enters the battlefield under its controller, a
/// nonpermanent-typed spell has its spell abilities' effects processed in
/// order and goes to its owner's graveyard, and state-based actions are
/// then checked. Resolving other stack-object kinds is not supported yet
/// and fails with a typed error after the pop.
pub open spec fn resolve_rel(pre: Game, post: Game, r: Result<(), GameError>) -> bool {
    if pre.stack@.len() == 0 {
        r == Err::<(), GameError>(GameError::StackEmpty) && post == pre
    } else {
        let top = pre.stack@.last();
        exists|g1: Game|
            {
                &&& #[trigger] same_but_stack(pre, g1)
                &&& g1.stack@ == pre.stack@.drop_last()
                &&& match top.state.stack_object_type {
                    StackObjectType::Spell => {
                        if top.characteristics.card_type is None {
                            r == Err::<(), GameError>(GameError::SpellWithoutTypes) && post == g1
                        } else if chars_any_permanent(top.characteristics) {
                            exists|g2: Game|
                                {
                                    &&& #[trigger] bf_entered_rel(g1, g2, top)
                                    &&& r is Ok
                                    &&& sba_rel(g2, post)
                                }
                        } else {
                            exists|g2: Game, r0: Result<(), GameError>|
                                {
                                    &&& #[trigger] spell_abilities_chain(
                                        g1,
                                        g2,
                                        spell_abilities_of(top),
                                        top.state.targets@,
                                        top.id,
                                        r0,
                                    )
                                    &&& if r0 is Err {
                                        post == g2 && r == r0
                                    } else if !chars_any_nonpermanent(top.characteristics) {
                                        r == Err::<(), GameError>(GameError::NotANonpermanent)
                                            && post == g2
                                    } else {
                                        exists|g3: Game|
                                            {
                                                &&& #[trigger] graveyard_gained_rel(g2, g3, top)
                                                &&& r is Ok
                                                &&& sba_rel(g3, post)
                                            }
                                    }
                                }
                        }
                    },
                    _ => r == Err::<(), GameError>(GameError::UnsupportedStackObject) && post
                        == g1,
                }
            }
    }
}

/// The abilities of a stack object, empty when it carries none.
pub open spec fn spell_abilities_of(top: GameObj<StackState>) -> Seq<AbilityDefinition> {
    match top.characteristics.abilities {
        Some(abs) => abs@,
        None => Seq::empty(),
    }
}

/// A resolved permanent enters the battlefield under its controller,
/// keyed by its id.
pub open spec fn bf_entered_rel(g1: Game, g2: Game, top: GameObj<StackState>) -> bool {
    let newobj = GameObj {
        id: top.id,
        owner: top.owner,
        characteristics: top.characteristics,
        state: spec_enter_battlefield_state(top.characteristics, top.state.controller),
    };
    &&& same_but_battlefield(g1, g2)
    &&& (has_id(g1.battlefield@, top.id) ==> g2.battlefield@ == g1.battlefield@.update(
        first_idx_by_id(g1.battlefield@, top.id),
        newobj,
    ))
    &&& (!has_id(g1.battlefield@, top.id) ==> g2.battlefield@ == g1.battlefield@.push(newobj))
}

/// A resolved nonpermanent joins its owner's graveyard.
pub open spec fn graveyard_gained_rel(g2: Game, g3: Game, top: GameObj<StackState>) -> bool {
    let gy = GameObj {
        id: top.id,
        owner: top.owner,
        characteristics: top.characteristics,
        state: GraveyardState,
    };
    let pi = player_idx(g2.players@, top.owner);
    &&& 0 <= pi < g2.players@.len()
    &&& same_but_players(g2, g3)
    &&& g3.players@.len() == g2.players@.len()
    &&& (forall|k: int|
        0 <= k < g2.players@.len() && k != pi ==> g3.players@[k] == g2.players@[k])
    &&& player_same_but_graveyard(g2.players@[pi], g3.players@[pi])
    &&& g3.players@[pi].graveyard@ == g2.players@[pi].graveyard@.push(gy)
}

/// One resolution step per ability: a spell-typed ability has its effect
/// processed; others do nothing.
pub open spec fn spell_ability_step_rel(
    pre: Game,
    post: Game,
    ab: AbilityDefinition,
    targets: Seq<crate::targeting::TargetRef>,
    r: Result<(), GameError>,
) -> bool {
    if ab.ability_type == AbilityType::Spell {
        effect_rel(pre, post, ab.effect_details, targets, r)
    } else {
        post == pre && r is Ok
    }
}

/// Sequential processing of a resolving spell's abilities.
pub open spec fn spell_abilities_chain(
    pre: Game,
    post: Game,
    abs: Seq<AbilityDefinition>,
    targets: Seq<crate::targeting::TargetRef>,
    source: ObjectId,
    r: Result<(), GameError>,
) -> bool
    decreases abs.len(),
{
    if abs.len() == 0 {
        post == pre && r is Ok
    } else {
        exists|mid: Game, r0: Result<(), GameError>|
            {
                &&& #[trigger] spell_ability_step_rel(pre, mid, abs[0], targets, r0)
                &&& if r0 is Err {
                    post == mid && r == r0
                } else {
                    spell_abilities_chain(mid, post, abs.drop_first(), targets, source, r)
                }
            }
    }
}

/// Extending an all-successful ability chain by one more ability.
pub proof fn lemma_spell_chain_snoc(
    pre: Game,
    mid: Game,
    post: Game,
    abs: Seq<AbilityDefinition>,
    x: AbilityDefinition,
    targets: Seq<crate::targeting::TargetRef>,
    source: ObjectId,
    r: Result<(), GameError>,
)
    requires
        spell_abilities_chain(pre, mid, abs, targets, source, Ok(())),
        spell_ability_step_rel(mid, post, x, targets, r),
    ensures
        spell_abilities_chain(pre, post, abs.push(x), targets, source, if r is Err {
            r
        } else {
            Ok(())
        }),
    decreases abs.len(),
{
    let full = abs.push(x);
    assert(full.len() == abs.len() + 1);
    if abs.len() == 0 {
        assert(mid == pre);
        assert(full[0] == x);
        assert(full.drop_first() =~= Seq::<AbilityDefinition>::empty());
        assert(spell_ability_step_rel(pre, post, full[0], targets, r));
        if !(r is Err) {
            assert(spell_abilities_chain(post, post, full.drop_first(), targets, source, Ok::<
                (),
                GameError,
            >(())));
        }
    } else {
        let (m0, r0): (Game, Result<(), GameError>) = choose|m0: Game, r0: Result<(), GameError>|
            #[trigger] spell_ability_step_rel(pre, m0, abs[0], targets, r0) && if r0 is Err {
                mid == m0 && Ok::<(), GameError>(()) == r0
            } else {
                spell_abilities_chain(m0, mid, abs.drop_first(), targets, source, Ok(()))
            };
        assert(r0 is Ok);
        assert(full[0] == abs[0]);
        assert(full.drop_first() =~= abs.drop_first().push(x));
        lemma_spell_chain_snoc(m0, mid, post, abs.drop_first(), x, targets, source, r);
        assert(spell_ability_step_rel(pre, m0, full[0], targets, r0));
    }
}

/// An ability chain that went through `k` successful abilities and then
/// failed covers the whole list.
pub proof fn lemma_spell_chain_err(
    pre: Game,
    mid: Game,
    post: Game,
    abs: Seq<AbilityDefinition>,
    k: int,
    targets: Seq<crate::targeting::TargetRef>,
    source: ObjectId,
    r: Result<(), GameError>,
)
    requires
        0 <= k < abs.len(),
        spell_abilities_chain(pre, mid, abs.take(k), targets, source, Ok(())),
        spell_ability_step_rel(mid, post, abs[k], targets, r),
        r is Err,
    ensures
        spell_abilities_chain(pre, post, abs, targets, source, r),
    decreases k,
{
    if k == 0 {
        assert(abs.take(0) =~= Seq::<AbilityDefinition>::empty());
        assert(mid == pre);
    } else {
        let tk = abs.take(k);
        assert(tk[0] == abs[0]);
        let (m0, r0): (Game, Result<(), GameError>) = choose|m0: Game, r0: Result<(), GameError>|
            #[trigger] spell_ability_step_rel(pre, m0, tk[0], targets, r0) && if r0 is Err {
                mid == m0 && Ok::<(), GameError>(()) == r0
            } else {
                spell_abilities_chain(m0, mid, tk.drop_first(), targets, source, Ok(()))
            };
        assert(r0 is Ok);
        assert(tk.drop_first() =~= abs.drop_first().take(k - 1));
        assert(abs.drop_first()[k - 1] == abs[k]);
        lemma_spell_chain_err(m0, mid, post, abs.drop_first(), k - 1, targets, source, r);
        assert(spell_ability_step_rel(pre, m0, abs[0], targets, r0));
    }
}

/// What passing priority does: priority would move to the next player in
/// turn order; if that would return it to the active player with an empty
/// stack the turn advances, with a non-empty stack the top object
/// resolves and the active player takes priority, and otherwise priority
/// simply moves on. The result reports whether the step, phase or stack
/// changed.
pub open spec fn pass_priority_rel(
    pre: Game,
    post: Game,
    r: Result<bool, GameError>,
) -> bool {
    let len = pre.players@.len();
    let next = ((pre.priority_player_id + 1) as int % len as int) as usize;
    if next == pre.active_player_id && pre.stack@.len() == 0 {
        exists|ar: Result<(), GameError>|
            #[trigger] advance_rel(pre, post, ar) && (match ar {
                Ok(_) => r == Ok::<bool, GameError>(true),
                Err(e) => r == Err::<bool, GameError>(e),
            })
    } else if next == pre.active_player_id {
        exists|mid: Game, rr: Result<(), GameError>|
            #[trigger] resolve_rel(pre, mid, rr) && (match rr {
                Ok(_) => post == (Game { priority_player_id: pre.active_player_id, ..mid }) && r
                    == Ok::<bool, GameError>(true),
                Err(e) => post == mid && r == Err::<bool, GameError>(e),
            })
    } else {
        r == Ok::<bool, GameError>(false) && post == (Game { priority_player_id: next, ..pre })
    }
}

impl Game {
    /// Play a land from hand as a special action; it counts toward the
    /// land drops for the turn.
    pub fn play_land_from_hand(&mut self, player_id: PlayerId, card_id: ObjectId) -> (r: Result<
        (),
        GameError,
    >)
        requires
            old(self).wf(),
        ensures
            final(self).wf(),
            final(self).players@.len() == old(self).players@.len(),
            play_land_rel(*old(self), *final(self), player_id, card_id, r),
    {
        if self.active_player_id != player_id {
            return Err(GameError::NotYourTurn);
        }
        let main_phase = matches!(self.phase.phase_type, PhaseType::Precombat)
            || matches!(self.phase.phase_type, PhaseType::Postcombat);
        if !main_phase {
            return Err(GameError::NotMainPhase);
        }
        if self.stack.len() != 0 {
            return Err(GameError::StackNotEmpty);
        }
        if self.priority_player_id != player_id {
            return Err(GameError::NoPriority);
        }
        let pi = match self.find_player(player_id) {
            None => {
                return Err(GameError::PlayerNotFound);
            },
            Some(i) => i,
        };
        if self.players[pi].lands_played_this_turn >= self.players[pi].max_lands_this_turn {
            return Err(GameError::NoLandDropsRemaining);
        }
        let hi = match crate::obj_lookup::find_idx_by_id(&self.players[pi].hand, card_id) {
            None => {
                return Err(GameError::CardNotFoundInHand);
            },
            Some(h) => h,
        };
        if !self.players[pi].hand[hi].has_card_type(&CardType::Land) {
            return Err(GameError::NotALand);
        }
        proof {
            assert(old(self).players@[pi as int].wf());
        }
        let p = self.get_player_mut(player_id);
        let hand_card = match p.remove_card_from_hand(card_id) {
            Ok(c) => c,
            Err(_) => vstd::pervasive::unreached(),
        };
        p.lands_played_this_turn = p.lands_played_this_turn + 1;
        proof {
            assert forall|i2: int|
                0 <= i2 < self.players@[pi as int].hand@.len() implies (
            #[trigger] self.players@[pi as int].hand@[i2]).creature_consistent()
                && self.players@[pi as int].hand@[i2].owner < old(self).players@.len() by {
                let oldhand = old(self).players@[pi as int].hand@;
                assert(self.players@[pi as int].hand@ == oldhand.remove(hi as int));
                if i2 < hi as int {
                    assert(self.players@[pi as int].hand@[i2] == oldhand[i2]);
                } else {
                    assert(self.players@[pi as int].hand@[i2] == oldhand[i2 + 1]);
                }
                assert(old(self).players@[pi as int].wf());
            }
            crate::game_events::lemma_players_update_keeps_wf(*old(self), *self, pi as int);
        }
        let ghost mid = *self;
        let battlefield_card = hand_card.to_battlefield(player_id);
        self.bf_insert(battlefield_card);
        proof {
            assert(self.wf()) by {
                assert forall|k: int|
                    0 <= k < self.battlefield@.len() implies (
                #[trigger] self.battlefield@[k]).owner < self.players@.len() by {
                    lemma_first_idx_props(mid.battlefield@, battlefield_card.id);
                    if has_id(mid.battlefield@, battlefield_card.id) {
                        if k != first_idx_by_id(mid.battlefield@, battlefield_card.id) {
                            assert(self.battlefield@[k] == mid.battlefield@[k]);
                        }
                    } else {
                        if k < self.battlefield@.len() - 1 {
                            assert(self.battlefield@[k] == mid.battlefield@[k]);
                        }
                    }
                }
            }
        }
        Ok(())
    }

    /// Cast a spell, having priority, from the given zone. Only casting
    /// from the hand is supported so far.
    pub fn cast_spell(
        &mut self,
        player_id: PlayerId,
        card_id: ObjectId,
        zone: Zone,
        targets: Vec<crate::targeting::TargetRef>,
    ) -> (r: Result<(), GameError>)
        requires
            old(self).wf(),
        ensures
            final(self).wf(),
            final(self).players@.len() == old(self).players@.len(),
            old(self).priority_player_id != player_id ==> r == Err::<(), GameError>(
                GameError::NoPriority,
            ) && *final(self) == *old(self),
            old(self).priority_player_id == player_id ==> match zone {
                Zone::Hand => cast_rel(*old(self), *final(self), player_id, card_id, targets, r),
                _ => r == Err::<(), GameError>(GameError::UnsupportedCastZone) && *final(self)
                    == *old(self),
            },
    {
        if self.priority_player_id != player_id {
            return Err(GameError::NoPriority);
        }
        match zone {
            Zone::Hand => self.cast_spell_from_hand(player_id, card_id, targets),
            _ => Err(GameError::UnsupportedCastZone),
        }
    }

    /// Cast a spell from the hand: validate timing and targets, pay the
    /// mana cost, and put the card on the stack.
    pub fn cast_spell_from_hand(
        &mut self,
        player_id: PlayerId,
        card_id: ObjectId,
        targets: Vec<crate::targeting::TargetRef>,
    ) -> (r: Result<(), GameError>)
        requires
            old(self).wf(),
        ensures
            final(self).wf(),
            final(self).players@.len() == old(self).players@.len(),
            cast_rel(*old(self), *final(self), player_id, card_id, targets, r),
    {
        let pi = match self.find_player(player_id) {
            None => {
                return Err(GameError::PlayerNotFound);
            },
            Some(i) => i,
        };
        let hi = match crate::obj_lookup::find_idx_by_id(&self.players[pi].hand, card_id) {
            None => {
                return Err(GameError::CardNotFoundInHand);
            },
            Some(h) => h,
        };
        if self.players[pi].hand[hi].has_card_type(&CardType::Land) {
            return Err(GameError::LandsCannotBeCast);
        }
        if !self.players[pi].hand[hi].has_card_type(&CardType::Instant) {
            let main_phase = matches!(self.phase.phase_type, PhaseType::Precombat)
                || matches!(self.phase.phase_type, PhaseType::Postcombat);
            if self.active_player_id != player_id || self.stack.len() != 0 || !main_phase {
                return Err(GameError::SorcerySpeedViolation);
            }
        }
        let valid = match &self.players[pi].hand[hi].characteristics.abilities {
            Some(abs) => {
                match self.validate_spell_targets(abs, &targets, player_id) {
                    Ok(b) => b,
                    Err(e) => {
                        return Err(e);
                    },
                }
            },
            None => true,
        };
        if !valid {
            return Err(GameError::InvalidTargets);
        }
        let mc_opt = self.players[pi].hand[hi].characteristics.mana_cost;
        let ghost paid = mc_opt is Some;
        match mc_opt {
            Some(mc) => {
                let cost = Cost::Mana(mc);
                let can = match cost.can_pay(self, player_id, None) {
                    Ok(b) => b,
                    Err(_) => vstd::pervasive::unreached(),
                };
                if !can {
                    return Err(GameError::NotEnoughManaToCast);
                }
                let res = cost.pay(self, player_id, None);
                match res {
                    Ok(_) => {},
                    Err(_) => {
                        proof {
                            assert(false);
                        }
                    },
                }
            },
            None => {},
        }
        let ghost mid = *self;
        proof {
            assert(self.players@[pi as int].hand == old(self).players@[pi as int].hand);
            assert(old(self).players@[pi as int].wf());
            // Paying kept every player's id, so the lookup is unchanged.
            lemma_player_idx_props(old(self).players@, player_id);
            assert forall|j: int|
                0 <= j < pi as int implies (#[trigger] self.players@[j]).id != player_id by {
                assert(self.players@[j] == old(self).players@[j]);
            }
            assert(self.players@[pi as int].id == player_id);
            crate::game::lemma_player_idx_at(self.players@, player_id, pi as int);
            assert(self.players@[pi as int].wf()) by {
                assert(self.players@[pi as int].library == old(self).players@[pi as int].library);
            }
        }
        let p = self.get_player_mut(player_id);
        let hand_card = match p.remove_card_from_hand(card_id) {
            Ok(c) => c,
            Err(_) => vstd::pervasive::unreached(),
        };
        proof {
            assert forall|i2: int|
                0 <= i2 < self.players@[pi as int].hand@.len() implies (
            #[trigger] self.players@[pi as int].hand@[i2]).creature_consistent()
                && self.players@[pi as int].hand@[i2].owner < old(self).players@.len() by {
                let oldhand = old(self).players@[pi as int].hand@;
                assert(self.players@[pi as int].hand@ == oldhand.remove(hi as int));
                if i2 < hi as int {
                    assert(self.players@[pi as int].hand@[i2] == oldhand[i2]);
                } else {
                    assert(self.players@[pi as int].hand@[i2] == oldhand[i2 + 1]);
                }
                assert(old(self).players@[pi as int].wf());
            }
            crate::game_events::lemma_players_update_keeps_wf(mid, *self, pi as int);
        }
        let ghost mid2 = *self;
        let stack_state = StackState {
            controller: player_id,
            targets,
            stack_object_type: StackObjectType::Spell,
            source_id: None,
        };
        let stack_object = hand_card.to_stack(stack_state);
        self.stack.push(stack_object);
        proof {
            assert(self.wf()) by {
                assert forall|k: int|
                    0 <= k < self.stack@.len() implies (
                #[trigger] self.stack@[k]).creature_consistent() && self.stack@[k].owner
                    < self.players@.len() by {
                    if k < self.stack@.len() - 1 {
                        assert(self.stack@[k] == mid2.stack@[k]);
                    } else {
                        assert(self.stack@[k] == stack_object);
                        assert(old(self).players@[pi as int].hand@[hi as int].creature_consistent());
                        assert(old(self).players@[pi as int].hand@[hi as int].owner < old(
                            self,
                        ).players@.len());
                    }
                }
            }
        }
        Ok(())
    }

    /// Resolve the spell or ability on top of the stack.
    #[verifier::loop_isolation(false)]
    #[verifier::rlimit(60)]
    pub fn resolve_top_of_stack(&mut self) -> (r: Result<(), GameError>)
        requires
            old(self).wf(),
        ensures
            final(self).wf(),
            final(self).players@.len() == old(self).players@.len(),
            resolve_rel(*old(self), *final(self), r),
    {
        if self.stack.len() == 0 {
            return Err(GameError::StackEmpty);
        }
        let top = match self.stack.pop() {
            Some(t) => t,
            None => vstd::pervasive::unreached(),
        };
        let ghost g1 = *self;
        proof {
            assert(same_but_stack(*old(self), g1));
            assert(g1.stack@ == old(self).stack@.drop_last());
            assert(top == old(self).stack@.last());
            assert(self.wf()) by {
                assert forall|k: int|
                    0 <= k < self.stack@.len() implies (
                #[trigger] self.stack@[k]).creature_consistent() && self.stack@[k].owner
                    < self.players@.len() by {
                    assert(self.stack@[k] == old(self).stack@[k]);
                }
            }
        }
        let controller_id = top.state.controller;
        let owner_id = top.owner;
        let top_id = top.id;
        match top.state.stack_object_type {
            StackObjectType::Spell => {
                if top.characteristics.card_type.is_none() {
                    return Err(GameError::SpellWithoutTypes);
                }
                let is_permanent = match &top.characteristics.card_type {
                    Some(ts) => crate::game_objects::type_list_any_permanent(ts),
                    None => vstd::pervasive::unreached(),
                };
                if is_permanent {
                    proof {
                        assert(old(self).stack@.last().creature_consistent());
                    }
                    let permanent = match top.resolve_as_permanent(controller_id) {
                        Ok(p) => p,
                        Err(_) => vstd::pervasive::unreached(),
                    };
                    self.bf_insert(permanent);
                    proof {
                        assert(self.wf()) by {
                            assert forall|k: int|
                                0 <= k < self.battlefield@.len() implies (
                            #[trigger] self.battlefield@[k]).owner < self.players@.len() by {
                                lemma_first_idx_props(g1.battlefield@, permanent.id);
                                if has_id(g1.battlefield@, permanent.id) {
                                    if k != first_idx_by_id(g1.battlefield@, permanent.id) {
                                        assert(self.battlefield@[k] == g1.battlefield@[k]);
                                    }
                                } else {
                                    if k < self.battlefield@.len() - 1 {
                                        assert(self.battlefield@[k] == g1.battlefield@[k]);
                                    }
                                }
                            }
                        }
                        assert(bf_entered_rel(g1, *self, old(self).stack@.last()));
                    }
                    let ghost g2w = *self;
                    let res = self.check_state_based_actions_if_needed();
                    match res {
                        Ok(_) => {},
                        Err(_) => {
                            proof {
                                assert(false);
                            }
                        },
                    }
                    proof {
                        assert(sba_rel(g2w, *self));
                        assert(bf_entered_rel(g1, g2w, old(self).stack@.last()));
                    }
                    Ok(())
                } else {
                    let ghost abs_seq = spell_abilities_of(old(self).stack@.last());
                    match &top.characteristics.abilities {
                        Some(abilities) => {
                            let n = abilities.len();
                            let mut i: usize = 0;
                            proof {
                                assert(abs_seq.take(0) =~= Seq::<AbilityDefinition>::empty());
                            }
                            while i < n
                                invariant
                                    self.wf(),
                                    self.players@.len() == g1.players@.len(),
                                    n == abilities@.len(),
                                    abs_seq == abilities@,
                                    i <= n,
                                    spell_abilities_chain(
                                        g1,
                                        *self,
                                        abs_seq.take(i as int),
                                        top.state.targets@,
                                        top_id,
                                        Ok(()),
                                    ),
                                decreases n - i,
                            {
                                let ghost before = *self;
                                let mut res: Result<(), GameError> = Ok(());
                                if matches!(abilities[i].ability_type, AbilityType::Spell) {
                                    res = self.process_effect(
                                        &abilities[i].effect_details,
                                        &top.state.targets,
                                        controller_id,
                                        Some(top_id),
                                    );
                                }
                                proof {
                                    assert(spell_ability_step_rel(
                                        before,
                                        *self,
                                        abs_seq[i as int],
                                        top.state.targets@,
                                        res,
                                    ));
                                }
                                match res {
                                    Ok(_) => {
                                        proof {
                                            lemma_spell_chain_snoc(
                                                g1,
                                                before,
                                                *self,
                                                abs_seq.take(i as int),
                                                abs_seq[i as int],
                                                top.state.targets@,
                                                top_id,
                                                res,
                                            );
                                            assert(abs_seq.take(i as int + 1) =~= abs_seq.take(
                                                i as int,
                                            ).push(abs_seq[i as int]));
                                        }
                                    },
                                    Err(e) => {
                                        proof {
                                            lemma_spell_chain_err(
                                                g1,
                                                before,
                                                *self,
                                                abs_seq,
                                                i as int,
                                                top.state.targets@,
                                                top_id,
                                                Err(e),
                                            );
                                        }
                                        return Err(e);
                                    },
                                }
                                i = i + 1;
                            }
                            proof {
                                assert(abs_seq.take(n as int) =~= abs_seq);
                            }
                        },
                        None => {
                            proof {
                                assert(abs_seq =~= Seq::<AbilityDefinition>::empty());
                            }
                        },
                    }
                    let ghost g2 = *self;
                    proof {
                        assert(spell_abilities_chain(
                            g1,
                            g2,
                            spell_abilities_of(old(self).stack@.last()),
                            old(self).stack@.last().state.targets@,
                            old(self).stack@.last().id,
                            Ok::<(), GameError>(()),
                        ));
                    }
                    let graveyard_obj = match top.resolve_as_nonpermanent() {
                        Ok(g) => g,
                        Err(e) => {
                            return Err(e);
                        },
                    };
                    proof {
                        assert(old(self).stack@.last().owner < old(self).players@.len());
                        lemma_player_idx_under_wf(self.players@, owner_id);
                    }
                    let p = self.get_player_mut(owner_id);
                    p.graveyard.push(graveyard_obj);
                    proof {
                        crate::game_events::lemma_players_update_keeps_wf(
                            g2,
                            *self,
                            owner_id as int,
                        );
                        assert(graveyard_gained_rel(g2, *self, old(self).stack@.last()));
                    }
                    let ghost g3 = *self;
                    let res = self.check_state_based_actions_if_needed();
                    match res {
                        Ok(_) => {},
                        Err(_) => {
                            proof {
                                assert(false);
                            }
                        },
                    }
                    proof {
                        assert(sba_rel(g3, *self));
                        assert(graveyard_gained_rel(g2, g3, old(self).stack@.last()));
                        assert(spell_abilities_chain(
                            g1,
                            g2,
                            spell_abilities_of(old(self).stack@.last()),
                            old(self).stack@.last().state.targets@,
                            old(self).stack@.last().id,
                            Ok::<(), GameError>(()),
                        ));
                    }
                    Ok(())
                }
            },
            _ => Err(GameError::UnsupportedStackObject),
        }
    }

    /// Pass priority to the next player in turn order; when it would
    /// return to the active player, either advance the turn (empty stack)
    /// or resolve the top of the stack and hand priority back to the
    /// active player.
    pub fn pass_priority(&mut self) -> (r: Result<bool, GameError>)
        requires
            old(self).wf(),
            old(self).players@.len() > 0,
            old(self).turn_number < u32::MAX,
        ensures
            final(self).wf(),
            final(self).players@.len() == old(self).players@.len(),
            pass_priority_rel(*old(self), *final(self), r),
    {
        let player_count = self.players.len();
        let next_player_id = (self.priority_player_id + 1) % player_count;
        if next_player_id == self.active_player_id && self.stack.len() == 0 {
            let res = self.advance_turn();
            match res {
                Ok(_) => Ok(true),
                Err(e) => Err(e),
            }
        } else if next_player_id == self.active_player_id {
            let act = self.active_player_id;
            let res = self.resolve_top_of_stack();
            match res {
                Ok(_) => {
                    let ghost mid = *self;
                    self.priority_player_id = act;
                    proof {
                        assert(resolve_rel(*old(self), mid, Ok(())));
                        assert(*self == (Game {
                            priority_player_id: old(self).active_player_id,
                            ..mid
                        }));
                        assert(self.wf()) by {
                            assert(old(self).active_player_id < old(self).players@.len());
                        }
                    }
                    Ok(true)
                },
                Err(e) => Err(e),
            }
        } else {
            self.priority_player_id = next_player_id;
            Ok(false)
        }
    }
}

/// Index of the first ability carrying `id` in the list, or -1.
pub open spec fn first_ability_idx(abs: Seq<AbilityDefinition>, id: ObjectId) -> int
    decreases abs.len(),
{
    if abs.len() == 0 {
        -1
    } else if abs[0].id == id {
        0
    } else {
        let rest = first_ability_idx(abs.drop_first(), id);
        if rest < 0 {
            -1
        } else {
            rest + 1
        }
    }
}

proof fn lemma_first_ability_at(abs: Seq<AbilityDefinition>, id: ObjectId, i: int)
    requires
        0 <= i < abs.len(),
        abs[i].id == id,
        forall|j: int| 0 <= j < i ==> (#[trigger] abs[j]).id != id,
    ensures
        first_ability_idx(abs, id) == i,
    decreases i,
{
    if i > 0 {
        assert forall|j: int| 0 <= j < i - 1 implies (#[trigger] abs.drop_first()[j]).id != id by {
            assert(abs.drop_first()[j] == abs[j + 1]);
        }
        assert(abs.drop_first()[i - 1] == abs[i]);
        lemma_first_ability_at(abs.drop_first(), id, i - 1);
    }
}

proof fn lemma_first_ability_none(abs: Seq<AbilityDefinition>, id: ObjectId)
    requires
        forall|j: int| 0 <= j < abs.len() ==> (#[trigger] abs[j]).id != id,
    ensures
        first_ability_idx(abs, id) == -1,
    decreases abs.len(),
{
    if abs.len() > 0 {
        assert forall|j: int|
            0 <= j < abs.drop_first().len() implies (#[trigger] abs.drop_first()[j]).id != id by {
            assert(abs.drop_first()[j] == abs[j + 1]);
        }
        lemma_first_ability_none(abs.drop_first(), id);
    }
}

/// Position of the first ability with the given id, if any.
fn find_ability_by_id(abs: &Vec<AbilityDefinition>, id: ObjectId) -> (r: Option<usize>)
    ensures
        match r {
            Some(i) => i as int == first_ability_idx(abs@, id) && i < abs@.len(),
            None => first_ability_idx(abs@, id) == -1,
        },
{
    let m = abs.len();
    let mut k: usize = 0;
    while k < m
        invariant
            m == abs@.len(),
            k <= m,
            forall|j: int| 0 <= j < k ==> (#[trigger] abs@[j]).id != id,
        decreases m - k,
    {
        if abs[k].id == id {
            proof {
                lemma_first_ability_at(abs@, id, k as int);
            }
            return Some(k);
        }
        k = k + 1;
    }
    proof {
        lemma_first_ability_none(abs@, id);
    }
    None
}

/// What activating an ability of a battlefield permanent does. The player
/// must hold priority and control the present permanent, which must carry
/// the named ability with the activated type; the targets must satisfy
/// the ability's requirement; the costs are checked and paid in order —
/// a payable cost list is paid in full, exactly, and an unpayable one
/// fails the activation — and on payment a synthesized ability object,
/// inheriting the rules text and the ability, goes on top of the stack.
pub open spec fn activate_rel(
    pre: Game,
    post: Game,
    player_id: PlayerId,
    permanent_id: ObjectId,
    ability_id: ObjectId,
    ability_text: String,
    targets: Vec<crate::targeting::TargetRef>,
    r: Result<(), GameError>,
) -> bool {
    if pre.priority_player_id != player_id {
        r == Err::<(), GameError>(GameError::NoPriority) && post == pre
    } else {
        let bi = first_idx_by_id(pre.battlefield@, permanent_id);
        if bi < 0 {
            r == Err::<(), GameError>(GameError::PermanentNotFound) && post == pre
        } else {
            let obj = pre.battlefield@[bi];
            if obj.state.controller != player_id {
                r == Err::<(), GameError>(GameError::NotController) && post == pre
            } else {
                match obj.characteristics.abilities {
                    None => r == Err::<(), GameError>(GameError::NoAbilities) && post == pre,
                    Some(abs) => {
                        let ai = first_ability_idx(abs@, ability_id);
                        if ai < 0 {
                            r == Err::<(), GameError>(GameError::AbilityNotFound) && post == pre
                        } else if abs@[ai].ability_type != AbilityType::Activated {
                            r == Err::<(), GameError>(GameError::NotActivatedAbility) && post
                                == pre
                        } else {
                            match spell_targets_check(pre, abs@[ai].effect_details, targets@, player_id) {
                                Err(e) => r == Err::<(), GameError>(e) && post == pre,
                                Ok(false) => r == Err::<(), GameError>(GameError::InvalidTargets)
                                    && post == pre,
                                Ok(true) => {
                                    exists|mid: Game, r0: Result<(), GameError>|
                                        {
                                            &&& #[trigger] crate::game_costs::cost_payment_rel(
                                                pre,
                                                mid,
                                                abs@[ai].costs@,
                                                player_id,
                                                permanent_id,
                                                r0,
                                            )
                                            &&& if r0 is Err {
                                                r == r0 && post == mid
                                            } else {
                                                &&& r is Ok
                                                &&& post == (Game { stack: post.stack, ..mid })
                                                &&& post.stack@.len() == mid.stack@.len() + 1
                                                &&& post.stack@ == mid.stack@.push(
                                                    post.stack@.last(),
                                                )
                                                &&& activated_object_ok(
                                                    post.stack@.last(),
                                                    player_id,
                                                    permanent_id,
                                                    ability_text,
                                                    targets,
                                                    abs@[ai],
                                                )
                                            }
                                        }
                                },
                            }
                        }
                    },
                }
            }
        }
    }
}

/// The synthesized stack object of an activated ability: owned and
/// controlled by the activating player, targeting as chosen, carrying
/// only the ability's rules text and the ability itself.
pub open spec fn activated_object_ok(
    o: GameObj<StackState>,
    player_id: PlayerId,
    permanent_id: ObjectId,
    ability_text: String,
    targets: Vec<crate::targeting::TargetRef>,
    ability: AbilityDefinition,
) -> bool {
    &&& o.owner == player_id
    &&& o.state == (StackState {
        controller: player_id,
        targets,
        stack_object_type: StackObjectType::ActivatedAbility,
        source_id: Some(permanent_id),
    })
    &&& o.characteristics.rules_text == Some(ability_text)
    &&& o.characteristics.abilities matches Some(a2) && a2@.len() == 1 && ability_eq(
        a2@[0],
        ability,
    )
    &&& o.characteristics.name is None
    &&& o.characteristics.mana_cost is None
    &&& o.characteristics.card_type is None
    &&& o.characteristics.power is None
    &&& o.characteristics.toughness is None
}

impl Game {
    /// Activate an activated ability of a battlefield permanent: validate
    /// priority, control, the ability and its targets, pay the costs, and
    /// push a synthesized ability object onto the stack.
    #[verifier::loop_isolation(false)]
    #[verifier::rlimit(60)]
    pub fn activate_ability_on_battlefield(
        &mut self,
        player_id: PlayerId,
        permanent_id: ObjectId,
        ability_id: ObjectId,
        ability_text: String,
        targets: Vec<crate::targeting::TargetRef>,
    ) -> (r: Result<(), GameError>)
        requires
            old(self).wf(),
        ensures
            final(self).wf(),
            final(self).players@.len() == old(self).players@.len(),
            activate_rel(
                *old(self),
                *final(self),
                player_id,
                permanent_id,
                ability_id,
                ability_text,
                targets,
                r,
            ),
    {
        if self.priority_player_id != player_id {
            return Err(GameError::NoPriority);
        }
        let bi = match self.bf_find(permanent_id) {
            None => {
                return Err(GameError::PermanentNotFound);
            },
            Some(i) => i,
        };
        if self.battlefield[bi].state.controller != player_id {
            return Err(GameError::NotController);
        }
        let (costs, the_ability): (Vec<Cost>, AbilityDefinition) = {
            match &self.battlefield[bi].characteristics.abilities {
                None => {
                    return Err(GameError::NoAbilities);
                },
                Some(abs) => {
                    let ai = match find_ability_by_id(abs, ability_id) {
                        None => {
                            return Err(GameError::AbilityNotFound);
                        },
                        Some(a) => a,
                    };
                    if !matches!(abs[ai].ability_type, AbilityType::Activated) {
                        return Err(GameError::NotActivatedAbility);
                    }
                    let ok = match &abs[ai].effect_details {
                        EffectDetails::DealDamage { amount, target_requirement } => {
                            match target_requirement {
                                Some(req) => req.validate_targets(self, &targets, player_id),
                                None => targets.len() == 0,
                            }
                        },
                        EffectDetails::Conditional { .. } => {
                            return Err(GameError::MultipleRequirementsUnsupported);
                        },
                        _ => targets.len() == 0,
                    };
                    if !ok {
                        return Err(GameError::InvalidTargets);
                    }
                    (crate::abilities::copy_costs(&abs[ai].costs), abs[ai].clone())
                },
            }
        };
        // Check and pay the costs in order.
        let ghost pre = *old(self);
        proof {
            lemma_first_idx_props(pre.battlefield@, permanent_id);
        }
        let res_pay = self.pay_cost_list(&costs, player_id, permanent_id);
        match res_pay {
            Ok(_) => {},
            Err(e) => {
                return Err(e);
            },
        }
        proof {
            assert(crate::game_costs::cost_payment_rel(
                pre,
                *self,
                costs@,
                player_id,
                permanent_id,
                Ok::<(), GameError>(()),
            ));
        }
        // Synthesize the ability object and put it on the stack.
        let ghost mid = *self;
        let ability_characteristics = Characteristics {
            name: None,
            mana_cost: None,
            color: None,
            color_indicator: None,
            card_type: None,
            supertype: None,
            subtype: None,
            rules_text: Some(ability_text),
            abilities: Some(one_ability(the_ability)),
            power: None,
            toughness: None,
            loyalty: None,
            defense: None,
            hand_modifier: None,
            life_modifier: None,
        };
        let stack_object = GameObj {
            id: fresh_object_id(),
            owner: player_id,
            characteristics: ability_characteristics,
            state: StackState {
                controller: player_id,
                targets,
                stack_object_type: StackObjectType::ActivatedAbility,
                source_id: Some(permanent_id),
            },
        };
        self.stack.push(stack_object);
        proof {
            assert(pre.battlefield@[bi as int].owner < pre.players@.len());
            assert(player_id < pre.players@.len());
            assert(self.wf()) by {
                assert forall|k: int|
                    0 <= k < self.stack@.len() implies (
                #[trigger] self.stack@[k]).creature_consistent() && self.stack@[k].owner
                    < self.players@.len() by {
                    if k < self.stack@.len() - 1 {
                        assert(self.stack@[k] == mid.stack@[k]);
                        assert(mid.stack@[k] == pre.stack@[k]);
                    }
                }
            }
            assert(crate::game_costs::cost_payment_rel(
                pre,
                mid,
                costs@,
                player_id,
                permanent_id,
                Ok::<(), GameError>(()),
            ));
        }
        Ok(())
    }
}

/// A one-element ability list.
fn one_ability(ab: AbilityDefinition) -> (r: Vec<AbilityDefinition>)
    ensures
        r@.len() == 1,
        r@[0] == ab,
{
    let mut v: Vec<AbilityDefinition> = Vec::new();
    v.push(ab);
    v
}

} // verus!
