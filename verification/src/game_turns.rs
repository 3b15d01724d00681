use vstd::prelude::*;
use crate::combat_types::{AttackDeclaration, AttackTarget, BlockDeclaration,
    CombatDamageAssignment, DamageRecipient};
use crate::errors::GameError;
use crate::events::GameEvent;
use crate::game::{Game, player_idx, same_but_players, same_but_players_battlefield};
use crate::game_events::{damage_dealt_rel, pools_emptied_rel, sba_rel};
use crate::game_objects::{AttackingState, BattlefieldState, BlockingState, CreatureAspect, GameObj};
use crate::ids::{ObjectId, PlayerId};
use crate::obj_lookup::first_idx_by_id;
use crate::player::Player;
use crate::targeting::{TargetRef, TargetRefId};
use crate::turns::{Phase, PhaseType, Step, StepType, spec_new_phase, spec_next_phase_type,
    spec_next_step_in};
use crate::zone_transitions::spec_to_hand;

verus! {

/// Sequential application of attack declarations: the first failing step
/// stops the run with its error and state.
pub open spec fn attacks_chain(
    pre: Game,
    post: Game,
    items: Seq<AttackDeclaration>,
    r: Result<(), GameError>,
) -> bool
    decreases items.len(),
{
    if items.len() == 0 {
        post == pre && r is Ok
    } else {
        exists|mid: Game, r0: Result<(), GameError>|
            {
                &&& #[trigger] attack_declare_rel(pre, mid, items[0], r0)
                &&& if r0 is Err {
                    post == mid && r == r0
                } else {
                    attacks_chain(mid, post, items.drop_first(), r)
                }
            }
    }
}

/// Sequential application of block declarations.
pub open spec fn blocks_chain(
    pre: Game,
    post: Game,
    items: Seq<BlockDeclaration>,
    r: Result<(), GameError>,
) -> bool
    decreases items.len(),
{
    if items.len() == 0 {
        post == pre && r is Ok
    } else {
        exists|mid: Game, r0: Result<(), GameError>|
            {
                &&& #[trigger] block_declare_rel(pre, mid, items[0], r0)
                &&& if r0 is Err {
                    post == mid && r == r0
                } else {
                    blocks_chain(mid, post, items.drop_first(), r)
                }
            }
    }
}

/// Sequential dealing of combat damage assignments, each through the
/// two-stage damage protocol.
pub open spec fn assignments_chain(
    pre: Game,
    post: Game,
    items: Seq<CombatDamageAssignment>,
    r: Result<(), GameError>,
) -> bool
    decreases items.len(),
{
    if items.len() == 0 {
        post == pre && r is Ok
    } else {
        exists|mid: Game, r0: Result<(), GameError>|
            {
                &&& #[trigger] damage_dealt_rel(
                    pre,
                    mid,
                    assignment_target(items[0]),
                    items[0].amount as u64,
                    r0,
                )
                &&& if r0 is Err {
                    post == mid && r == r0
                } else {
                    assignments_chain(mid, post, items.drop_first(), r)
                }
            }
    }
}

/// What declaring one attacker does: the named permanent is tapped (the
/// cost of attacking) and, when it is a creature, marked as attacking the
/// declared target, unblocked so far. A non-creature leaves the tap in
/// place and fails.
pub open spec fn attack_declare_rel(
    pre: Game,
    post: Game,
    decl: AttackDeclaration,
    r: Result<(), GameError>,
) -> bool {
    let bi = first_idx_by_id(pre.battlefield@, decl.attacker_id);
    if bi < 0 {
        r == Err::<(), GameError>(GameError::PermanentNotFound) && post == pre
    } else {
        let obj = pre.battlefield@[bi];
        &&& crate::game::same_but_battlefield(pre, post)
        &&& post.battlefield@.len() == pre.battlefield@.len()
        &&& forall|k: int|
            0 <= k < pre.battlefield@.len() && k != bi ==> post.battlefield@[k]
                == pre.battlefield@[k]
        &&& match obj.state.creature {
            Some(aspect) => {
                &&& r is Ok
                &&& post.battlefield@[bi] == (GameObj {
                    state: BattlefieldState {
                        tapped: true,
                        creature: post.battlefield@[bi].state.creature,
                        ..obj.state
                    },
                    ..obj
                })
                &&& post.battlefield@[bi].state.creature matches Some(a2) && a2 == (CreatureAspect {
                    attacking: a2.attacking,
                    ..aspect
                }) && (a2.attacking matches Some(st) && st.target == decl.target && st.is_blocked
                    == false && st.blocked_by@.len() == 0)
            },
            None => {
                &&& r == Err::<(), GameError>(GameError::NotACreature)
                &&& post.battlefield@[bi] == (GameObj {
                    state: BattlefieldState { tapped: true, ..obj.state },
                    ..obj
                })
            },
        }
    }
}

/// What declaring one blocker does: the blocker is appended to the
/// attacker's blocked-by list, and the attacker to the blocker's blocking
/// list (created with a one-creature capacity when absent).
pub open spec fn block_declare_rel(
    pre: Game,
    post: Game,
    decl: BlockDeclaration,
    r: Result<(), GameError>,
) -> bool {
    let ai = first_idx_by_id(pre.battlefield@, decl.attacker_id);
    if ai < 0 {
        r == Err::<(), GameError>(GameError::PermanentNotFound) && post == pre
    } else {
        let att = pre.battlefield@[ai];
        match att.state.creature {
            None => r == Err::<(), GameError>(GameError::NotACreature) && post == pre,
            Some(aspect) => {
                match aspect.attacking {
                    None => r == Err::<(), GameError>(GameError::NotAttacking) && post == pre,
                    Some(ast) => {
                        exists|mid: Game|
                            {
                                &&& #[trigger] crate::game::same_but_battlefield(pre, mid)
                                &&& mid.battlefield@.len() == pre.battlefield@.len()
                                &&& (forall|k: int|
                                    0 <= k < pre.battlefield@.len() && k != ai
                                        ==> mid.battlefield@[k] == pre.battlefield@[k])
                                &&& mid.battlefield@[ai] == (GameObj {
                                    state: BattlefieldState {
                                        creature: mid.battlefield@[ai].state.creature,
                                        ..att.state
                                    },
                                    ..att
                                })
                                &&& (mid.battlefield@[ai].state.creature matches Some(a2) && a2
                                    == (CreatureAspect { attacking: a2.attacking, ..aspect }) && (
                                a2.attacking matches Some(st2) && st2 == (AttackingState {
                                    blocked_by: st2.blocked_by,
                                    ..ast
                                }) && st2.blocked_by@ == ast.blocked_by@.push(decl.blocker_id)))
                                &&& blocker_update_rel(mid, post, decl, r)
                            }
                    },
                }
            },
        }
    }
}

/// The blocker half of a block declaration, against state `mid`.
pub open spec fn blocker_update_rel(
    mid: Game,
    post: Game,
    decl: BlockDeclaration,
    r: Result<(), GameError>,
) -> bool {
    let bi = first_idx_by_id(mid.battlefield@, decl.blocker_id);
    if bi < 0 {
        r == Err::<(), GameError>(GameError::PermanentNotFound) && post == mid
    } else {
        let blk = mid.battlefield@[bi];
        match blk.state.creature {
            None => r == Err::<(), GameError>(GameError::NotACreature) && post == mid,
            Some(baspect) => {
                &&& r is Ok
                &&& crate::game::same_but_battlefield(mid, post)
                &&& post.battlefield@.len() == mid.battlefield@.len()
                &&& (forall|k: int|
                    0 <= k < mid.battlefield@.len() && k != bi ==> post.battlefield@[k]
                        == mid.battlefield@[k])
                &&& post.battlefield@[bi] == (GameObj {
                    state: BattlefieldState {
                        creature: post.battlefield@[bi].state.creature,
                        ..blk.state
                    },
                    ..blk
                })
                &&& (post.battlefield@[bi].state.creature matches Some(b2) && b2
                    == (CreatureAspect { blocking: b2.blocking, ..baspect }) && (
                b2.blocking matches Some(bs2) && bs2.max_can_block == (match baspect.blocking {
                    Some(bs) => bs.max_can_block,
                    None => 1u32,
                }) && bs2.blocking@ == (match baspect.blocking {
                    Some(bs) => bs.blocking@,
                    None => Seq::<ObjectId>::empty(),
                }).push(decl.attacker_id)))
            },
        }
    }
}

/// The target reference a damage assignment resolves to.
pub open spec fn assignment_target(a: CombatDamageAssignment) -> TargetRef {
    match a.target_id {
        DamageRecipient::Player(pid) => TargetRef { ref_id: TargetRefId::Player(pid) },
        DamageRecipient::Creature(oid) => TargetRef { ref_id: TargetRefId::Object(oid) },
        DamageRecipient::Planeswalker(oid) => TargetRef { ref_id: TargetRefId::Object(oid) },
        DamageRecipient::Battle(oid) => TargetRef { ref_id: TargetRefId::Object(oid) },
    }
}

/// Whether any battlefield creature is currently attacking.
pub open spec fn spec_has_attackers(bf: Seq<GameObj<BattlefieldState>>) -> bool {
    exists|i: int|
        0 <= i < bf.len() && ((#[trigger] bf[i]).state.creature matches Some(a) && a.attacking
            is Some)
}

/// What processing the current phase and step does, from state `g`.
///
/// Untap: the active player's land-drop count resets and their creatures
/// shed summoning sickness; no priority is assigned. Upkeep, the main
/// phases, and most combat steps assign priority to the active player.
/// Draw: the active player draws a card, then receives priority; an empty
/// library fails the step. Declare attackers/blockers and combat damage
/// consume the pending decision buffers. Cleanup does nothing yet: the
/// discard-to-hand-size action is a documented gap.
pub open spec fn step_process_rel(g: Game, post: Game, r: Result<(), GameError>) -> bool {
    let act = g.active_player_id;
    match (g.phase.phase_type, g.phase.current_step) {
        (PhaseType::Beginning, Some(st)) => {
            if st.step_type == StepType::Untap {
                untap_rel(g, post, r)
            } else if st.step_type == StepType::Upkeep {
                r is Ok && post == (Game { priority_player_id: act, ..g })
            } else if st.step_type == StepType::Draw {
                draw_step_rel(g, post, r)
            } else {
                r == Err::<(), GameError>(GameError::InvalidPhaseStep) && post == g
            }
        },
        (PhaseType::Beginning, None) => r == Err::<(), GameError>(GameError::InvalidPhaseStep)
            && post == g,
        (PhaseType::Precombat, _) => r is Ok && post == (Game { priority_player_id: act, ..g }),
        (PhaseType::Postcombat, _) => r is Ok && post == (Game { priority_player_id: act, ..g }),
        (PhaseType::Combat, Some(st)) => {
            if st.step_type == StepType::BeginCombat || st.step_type == StepType::FirstStrikeDamage {
                r is Ok && post == (Game { priority_player_id: act, ..g })
            } else if st.step_type == StepType::DeclareAttackers {
                declare_attackers_rel(g, post, r)
            } else if st.step_type == StepType::DeclareBlockers {
                declare_blockers_rel(g, post, r)
            } else if st.step_type == StepType::CombatDamage {
                combat_damage_rel(g, post, r)
            } else if st.step_type == StepType::EndCombat {
                end_combat_rel(g, post, r)
            } else {
                r == Err::<(), GameError>(GameError::InvalidPhaseStep) && post == g
            }
        },
        (PhaseType::Combat, None) => r == Err::<(), GameError>(GameError::InvalidPhaseStep) && post
            == g,
        (PhaseType::Ending, Some(st)) => {
            if st.step_type == StepType::End {
                r is Ok && post == (Game { priority_player_id: act, ..g })
            } else if st.step_type == StepType::Cleanup {
                r is Ok && post == g
            } else {
                r == Err::<(), GameError>(GameError::InvalidPhaseStep) && post == g
            }
        },
        (PhaseType::Ending, None) => r == Err::<(), GameError>(GameError::InvalidPhaseStep) && post
            == g,
    }
}

/// The untap step: the active player's land-drop count resets and each
/// creature they control sheds summoning sickness. Untapping permanents
/// is a documented gap and does not happen yet. No priority is assigned.
pub open spec fn untap_rel(g: Game, post: Game, r: Result<(), GameError>) -> bool {
    let act = g.active_player_id as int;
    &&& r is Ok
    &&& same_but_players_battlefield(g, post)
    &&& post.players@.len() == g.players@.len()
    &&& (forall|k: int|
        0 <= k < g.players@.len() && k != act ==> post.players@[k] == g.players@[k])
    &&& (0 <= act < g.players@.len() ==> post.players@[act] == (Player {
        lands_played_this_turn: 0u32,
        ..g.players@[act]
    }))
    &&& post.battlefield@.len() == g.battlefield@.len()
    &&& (forall|k: int|
        0 <= k < g.battlefield@.len() ==> (#[trigger] post.battlefield@[k]) == (
        if g.battlefield@[k].state.controller == g.active_player_id
            && g.battlefield@[k].state.creature is Some {
            GameObj {
                state: BattlefieldState {
                    creature: Some(
                        CreatureAspect {
                            summoning_sick: false,
                            ..g.battlefield@[k].state.creature->0
                        },
                    ),
                    ..g.battlefield@[k].state
                },
                ..g.battlefield@[k]
            }
        } else {
            g.battlefield@[k]
        }))
}

/// The draw step: the active player draws the top card of their library
/// and then receives priority; with an empty library the step fails
/// before priority is assigned (the losing-the-game consequence is a
/// documented gap).
pub open spec fn draw_step_rel(g: Game, post: Game, r: Result<(), GameError>) -> bool {
    let act = g.active_player_id as int;
    &&& 0 <= act < g.players@.len() ==> {
        let p = g.players@[act];
        if p.library@.len() == 0 {
            r == Err::<(), GameError>(GameError::LibraryEmpty) && post == g
        } else {
            &&& r is Ok
            &&& same_but_players(
                Game { priority_player_id: g.active_player_id, ..g },
                post,
            )
            &&& post.priority_player_id == g.active_player_id
            &&& post.players@.len() == g.players@.len()
            &&& (forall|k: int|
                0 <= k < g.players@.len() && k != act ==> post.players@[k] == g.players@[k])
            &&& post.players@[act].library@ =~= p.library@.drop_last()
            &&& post.players@[act].hand@ =~= p.hand@.push(spec_to_hand(p.library@.last()))
            &&& post.players@[act].graveyard == p.graveyard
            &&& post.players@[act].mana_pool == p.mana_pool
            &&& post.players@[act].same_counters(p)
        }
    }
    &&& !(0 <= act < g.players@.len()) ==> r == Err::<(), GameError>(GameError::PlayerNotFound)
        && post == g
}


/// The pending attack declarations, empty when none were handed in.
pub open spec fn pending_attacks_of(g: Game) -> Seq<AttackDeclaration> {
    match g.pending_attack_declarations {
        Some(ds) => ds@,
        None => Seq::empty(),
    }
}

/// The pending block declarations, empty when none were handed in.
pub open spec fn pending_blocks_of(g: Game) -> Seq<BlockDeclaration> {
    match g.pending_block_declarations {
        Some(ds) => ds@,
        None => Seq::empty(),
    }
}

/// The pending damage assignments, empty when none were handed in.
pub open spec fn pending_assignments_of(g: Game) -> Seq<CombatDamageAssignment> {
    match g.pending_damage_assignments {
        Some(ds) => ds@,
        None => Seq::empty(),
    }
}

/// The game with its pending attack declarations consumed.
pub open spec fn attacks_consumed(g: Game) -> Game {
    Game { pending_attack_declarations: None, ..g }
}

/// The game with its pending block declarations consumed.
pub open spec fn blocks_consumed(g: Game) -> Game {
    Game { pending_block_declarations: None, ..g }
}

/// The game with its pending damage assignments consumed.
pub open spec fn assignments_consumed(g: Game) -> Game {
    Game { pending_damage_assignments: None, ..g }
}

/// The declare-attackers step: the pending attack declarations are
/// consumed and applied in order; then attackers count as declared and
/// the active player receives priority. A failing declaration stops the
/// step with the earlier declarations applied.
pub open spec fn declare_attackers_rel(g: Game, post: Game, r: Result<(), GameError>) -> bool {
    exists|mid: Game, r0: Result<(), GameError>|
        {
            &&& #[trigger] attacks_chain(attacks_consumed(g), mid, pending_attacks_of(g), r0)
            &&& if r0 is Err {
                post == mid && r == r0
            } else {
                r is Ok && post == (Game {
                    attacks_declared: true,
                    priority_player_id: g.active_player_id,
                    ..mid
                })
            }
        }
}

/// The declare-blockers step: with no attackers the step just assigns
/// priority; otherwise the pending block declarations are consumed and
/// applied in order, then the active player receives priority.
pub open spec fn declare_blockers_rel(g: Game, post: Game, r: Result<(), GameError>) -> bool {
    if !spec_has_attackers(g.battlefield@) {
        r is Ok && post == (Game { priority_player_id: g.active_player_id, ..g })
    } else {
        exists|mid: Game, r0: Result<(), GameError>|
            {
                &&& #[trigger] blocks_chain(blocks_consumed(g), mid, pending_blocks_of(g), r0)
                &&& if r0 is Err {
                    post == mid && r == r0
                } else {
                    r is Ok && post == (Game {
                        priority_player_id: g.active_player_id,
                        ..mid
                    })
                }
            }
    }
}

/// The combat-damage step: the pending damage assignments are consumed
/// and dealt in order through the two-stage damage protocol, state-based
/// actions are checked, and the active player receives priority.
pub open spec fn combat_damage_rel(g: Game, post: Game, r: Result<(), GameError>) -> bool {
    exists|mid: Game, r0: Result<(), GameError>|
        {
            &&& #[trigger] assignments_chain(
                assignments_consumed(g),
                mid,
                pending_assignments_of(g),
                r0,
            )
            &&& if r0 is Err {
                post == mid && r == r0
            } else {
                exists|mid2: Game|
                    {
                        &&& #[trigger] sba_rel(mid, mid2)
                        &&& r is Ok
                        &&& post == (Game { priority_player_id: g.active_player_id, ..mid2 })
                    }
            }
        }
}

/// Extending an all-successful attack chain by one more step.
pub proof fn lemma_attacks_chain_snoc(
    pre: Game,
    mid: Game,
    post: Game,
    items: Seq<AttackDeclaration>,
    x: AttackDeclaration,
    r: Result<(), GameError>,
)
    requires
        attacks_chain(pre, mid, items, Ok(())),
        attack_declare_rel(mid, post, x, r),
    ensures
        attacks_chain(pre, post, items.push(x), if r is Err {
            r
        } else {
            Ok(())
        }),
    decreases items.len(),
{
    let full = items.push(x);
    assert(full.len() == items.len() + 1);
    if items.len() == 0 {
        assert(mid == pre);
        assert(full[0] == x);
        assert(full.drop_first() =~= Seq::<AttackDeclaration>::empty());
        assert(attack_declare_rel(pre, post, full[0], r));
        if !(r is Err) {
            assert(attacks_chain(post, post, full.drop_first(), Ok::<(), GameError>(())));
        }
    } else {
        let (m0, r0): (Game, Result<(), GameError>) = choose|m0: Game, r0: Result<(), GameError>|
            #[trigger] attack_declare_rel(pre, m0, items[0], r0) && if r0 is Err {
                mid == m0 && Ok::<(), GameError>(()) == r0
            } else {
                attacks_chain(m0, mid, items.drop_first(), Ok(()))
            };
        assert(r0 is Ok);
        assert(full[0] == items[0]);
        assert(full.drop_first() =~= items.drop_first().push(x));
        lemma_attacks_chain_snoc(m0, mid, post, items.drop_first(), x, r);
        assert(attack_declare_rel(pre, m0, full[0], r0));
    }
}

/// An attack chain that went through `k` successful steps and then failed
/// covers the whole list.
pub proof fn lemma_attacks_chain_err(
    pre: Game,
    mid: Game,
    post: Game,
    items: Seq<AttackDeclaration>,
    k: int,
    r: Result<(), GameError>,
)
    requires
        0 <= k < items.len(),
        attacks_chain(pre, mid, items.take(k), Ok(())),
        attack_declare_rel(mid, post, items[k], r),
        r is Err,
    ensures
        attacks_chain(pre, post, items, r),
    decreases k,
{
    if k == 0 {
        assert(items.take(0) =~= Seq::<AttackDeclaration>::empty());
        assert(mid == pre);
    } else {
        let tk = items.take(k);
        assert(tk[0] == items[0]);
        let (m0, r0): (Game, Result<(), GameError>) = choose|m0: Game, r0: Result<(), GameError>|
            #[trigger] attack_declare_rel(pre, m0, tk[0], r0) && if r0 is Err {
                mid == m0 && Ok::<(), GameError>(()) == r0
            } else {
                attacks_chain(m0, mid, tk.drop_first(), Ok(()))
            };
        assert(r0 is Ok);
        assert(tk.drop_first() =~= items.drop_first().take(k - 1));
        assert(items.drop_first()[k - 1] == items[k]);
        lemma_attacks_chain_err(m0, mid, post, items.drop_first(), k - 1, r);
        assert(attack_declare_rel(pre, m0, items[0], r0));
    }
}

/// Extending an all-successful block chain by one more step.
pub proof fn lemma_blocks_chain_snoc(
    pre: Game,
    mid: Game,
    post: Game,
    items: Seq<BlockDeclaration>,
    x: BlockDeclaration,
    r: Result<(), GameError>,
)
    requires
        blocks_chain(pre, mid, items, Ok(())),
        block_declare_rel(mid, post, x, r),
    ensures
        blocks_chain(pre, post, items.push(x), if r is Err {
            r
        } else {
            Ok(())
        }),
    decreases items.len(),
{
    let full = items.push(x);
    assert(full.len() == items.len() + 1);
    if items.len() == 0 {
        assert(mid == pre);
        assert(full[0] == x);
        assert(full.drop_first() =~= Seq::<BlockDeclaration>::empty());
        assert(block_declare_rel(pre, post, full[0], r));
        if !(r is Err) {
            assert(blocks_chain(post, post, full.drop_first(), Ok::<(), GameError>(())));
        }
    } else {
        let (m0, r0): (Game, Result<(), GameError>) = choose|m0: Game, r0: Result<(), GameError>|
            #[trigger] block_declare_rel(pre, m0, items[0], r0) && if r0 is Err {
                mid == m0 && Ok::<(), GameError>(()) == r0
            } else {
                blocks_chain(m0, mid, items.drop_first(), Ok(()))
            };
        assert(r0 is Ok);
        assert(full[0] == items[0]);
        assert(full.drop_first() =~= items.drop_first().push(x));
        lemma_blocks_chain_snoc(m0, mid, post, items.drop_first(), x, r);
        assert(block_declare_rel(pre, m0, full[0], r0));
    }
}

/// A block chain that went through `k` successful steps and then failed
/// covers the whole list.
pub proof fn lemma_blocks_chain_err(
    pre: Game,
    mid: Game,
    post: Game,
    items: Seq<BlockDeclaration>,
    k: int,
    r: Result<(), GameError>,
)
    requires
        0 <= k < items.len(),
        blocks_chain(pre, mid, items.take(k), Ok(())),
        block_declare_rel(mid, post, items[k], r),
        r is Err,
    ensures
        blocks_chain(pre, post, items, r),
    decreases k,
{
    if k == 0 {
        assert(items.take(0) =~= Seq::<BlockDeclaration>::empty());
        assert(mid == pre);
    } else {
        let tk = items.take(k);
        assert(tk[0] == items[0]);
        let (m0, r0): (Game, Result<(), GameError>) = choose|m0: Game, r0: Result<(), GameError>|
            #[trigger] block_declare_rel(pre, m0, tk[0], r0) && if r0 is Err {
                mid == m0 && Ok::<(), GameError>(()) == r0
            } else {
                blocks_chain(m0, mid, tk.drop_first(), Ok(()))
            };
        assert(r0 is Ok);
        assert(tk.drop_first() =~= items.drop_first().take(k - 1));
        assert(items.drop_first()[k - 1] == items[k]);
        lemma_blocks_chain_err(m0, mid, post, items.drop_first(), k - 1, r);
        assert(block_declare_rel(pre, m0, items[0], r0));
    }
}

/// Extending an all-successful assignment chain by one more step.
pub proof fn lemma_assignments_chain_snoc(
    pre: Game,
    mid: Game,
    post: Game,
    items: Seq<CombatDamageAssignment>,
    x: CombatDamageAssignment,
    r: Result<(), GameError>,
)
    requires
        assignments_chain(pre, mid, items, Ok(())),
        damage_dealt_rel(mid, post, assignment_target(x), x.amount as u64, r),
    ensures
        assignments_chain(pre, post, items.push(x), if r is Err {
            r
        } else {
            Ok(())
        }),
    decreases items.len(),
{
    let full = items.push(x);
    assert(full.len() == items.len() + 1);
    if items.len() == 0 {
        assert(mid == pre);
        assert(full[0] == x);
        assert(full.drop_first() =~= Seq::<CombatDamageAssignment>::empty());
        assert(damage_dealt_rel(pre, post, assignment_target(full[0]), full[0].amount as u64, r));
        if !(r is Err) {
            assert(assignments_chain(post, post, full.drop_first(), Ok::<(), GameError>(())));
        }
    } else {
        let (m0, r0): (Game, Result<(), GameError>) = choose|
            m0: Game,
            r0: Result<(), GameError>,
        |
            #[trigger] damage_dealt_rel(
                pre,
                m0,
                assignment_target(items[0]),
                items[0].amount as u64,
                r0,
            ) && if r0 is Err {
                mid == m0 && Ok::<(), GameError>(()) == r0
            } else {
                assignments_chain(m0, mid, items.drop_first(), Ok(()))
            };
        assert(r0 is Ok);
        assert(full[0] == items[0]);
        assert(full.drop_first() =~= items.drop_first().push(x));
        lemma_assignments_chain_snoc(m0, mid, post, items.drop_first(), x, r);
        assert(damage_dealt_rel(pre, m0, assignment_target(full[0]), full[0].amount as u64, r0));
    }
}

/// An assignment chain that went through `k` successful steps and then
/// failed covers the whole list.
pub proof fn lemma_assignments_chain_err(
    pre: Game,
    mid: Game,
    post: Game,
    items: Seq<CombatDamageAssignment>,
    k: int,
    r: Result<(), GameError>,
)
    requires
        0 <= k < items.len(),
        assignments_chain(pre, mid, items.take(k), Ok(())),
        damage_dealt_rel(mid, post, assignment_target(items[k]), items[k].amount as u64, r),
        r is Err,
    ensures
        assignments_chain(pre, post, items, r),
    decreases k,
{
    if k == 0 {
        assert(items.take(0) =~= Seq::<CombatDamageAssignment>::empty());
        assert(mid == pre);
    } else {
        let tk = items.take(k);
        assert(tk[0] == items[0]);
        let (m0, r0): (Game, Result<(), GameError>) = choose|
            m0: Game,
            r0: Result<(), GameError>,
        |
            #[trigger] damage_dealt_rel(
                pre,
                m0,
                assignment_target(tk[0]),
                tk[0].amount as u64,
                r0,
            ) && if r0 is Err {
                mid == m0 && Ok::<(), GameError>(()) == r0
            } else {
                assignments_chain(m0, mid, tk.drop_first(), Ok(()))
            };
        assert(r0 is Ok);
        assert(tk.drop_first() =~= items.drop_first().take(k - 1));
        assert(items.drop_first()[k - 1] == items[k]);
        lemma_assignments_chain_err(m0, mid, post, items.drop_first(), k - 1, r);
        assert(damage_dealt_rel(
            pre,
            m0,
            assignment_target(items[0]),
            items[0].amount as u64,
            r0,
        ));
    }
}

/// The shell of a turn advance: the phase/step fields move by the fixed
/// tables, the turn counter and active player rotate exactly on the
/// Ending-to-Beginning wraparound, and every mana pool empties at the
/// step or phase boundary.
pub open spec fn advance_shell_rel(pre: Game, mid: Game) -> bool {
    match pre.phase.current_step {
        Some(st) => match spec_next_step_in(pre.phase.phase_type, st.step_type) {
            Some(n) => pools_emptied_rel(
                Game {
                    phase: Phase {
                        phase_type: pre.phase.phase_type,
                        current_step: Some(Step { step_type: n, is_completed: false }),
                        is_completed: pre.phase.is_completed,
                    },
                    ..pre
                },
                mid,
            ),
            None => phase_shell_rel(pre, mid),
        },
        None => phase_shell_rel(pre, mid),
    }
}

/// The phase-boundary shell: a fresh next phase, with turn number and
/// active player rotated exactly when the Ending phase wraps to
/// Beginning, and all mana pools emptied.
pub open spec fn phase_shell_rel(pre: Game, mid: Game) -> bool {
    let npt = spec_next_phase_type(pre.phase.phase_type);
    let wraps = pre.phase.phase_type == PhaseType::Ending;
    pools_emptied_rel(
        Game {
            phase: spec_new_phase(npt),
            turn_number: if wraps {
                (pre.turn_number + 1) as u32
            } else {
                pre.turn_number
            },
            active_player_id: if wraps {
                ((pre.active_player_id + 1) as int % pre.players@.len() as int) as usize
            } else {
                pre.active_player_id
            },
            ..pre
        },
        mid,
    )
}

/// What one turn advance does: the shell moves the turn structure and
/// empties the pools, then the new phase or step is processed.
pub open spec fn advance_rel(pre: Game, post: Game, r: Result<(), GameError>) -> bool {
    exists|mid: Game| #[trigger] advance_shell_rel(pre, mid) && step_process_rel(mid, post, r)
}

/// The end-of-combat step: combat state is cleared from every creature,
/// the declaration flags reset, and the active player receives priority.
pub open spec fn end_combat_rel(g: Game, post: Game, r: Result<(), GameError>) -> bool {
    &&& r is Ok
    &&& post == (Game {
        battlefield: post.battlefield,
        attacks_declared: false,
        blockers_declared: false,
        priority_player_id: g.active_player_id,
        ..g
    })
    &&& post.battlefield@.len() == g.battlefield@.len()
    &&& (forall|k: int|
        0 <= k < g.battlefield@.len() ==> (#[trigger] post.battlefield@[k]) == (
        match g.battlefield@[k].state.creature {
            Some(aspect) => GameObj {
                state: BattlefieldState {
                    creature: Some(
                        CreatureAspect { attacking: None, blocking: None, ..aspect },
                    ),
                    ..g.battlefield@[k].state
                },
                ..g.battlefield@[k]
            },
            None => g.battlefield@[k],
        }))
}

impl Game {
    /// Process the current phase and step, performing its turn-based
    /// actions and assigning priority where the rules grant it.
    pub fn process_current_phase(&mut self) -> (r: Result<(), GameError>)
        requires
            old(self).wf(),
            old(self).players@.len() > 0,
        ensures
            final(self).wf(),
            final(self).players@.len() == old(self).players@.len(),
            step_process_rel(*old(self), *final(self), r),
    {
        let phase_type = self.phase.phase_type;
        let step_type: Option<StepType> = match &self.phase.current_step {
            Some(s) => Some(s.step_type),
            None => None,
        };
        match phase_type {
            PhaseType::Beginning => match step_type {
                Some(StepType::Untap) => self.process_untap_step(),
                Some(StepType::Upkeep) => self.process_upkeep_step(),
                Some(StepType::Draw) => self.process_draw_step(),
                _ => Err(GameError::InvalidPhaseStep),
            },
            PhaseType::Precombat => self.process_main_phase(),
            PhaseType::Combat => match step_type {
                Some(StepType::BeginCombat) => self.process_begin_combat_step(),
                Some(StepType::DeclareAttackers) => self.process_declare_attackers_step(),
                Some(StepType::DeclareBlockers) => self.process_declare_blockers_step(),
                Some(StepType::FirstStrikeDamage) => self.process_first_strike_damage_step(),
                Some(StepType::CombatDamage) => self.process_combat_damage_step(),
                Some(StepType::EndCombat) => self.process_end_combat_step(),
                _ => Err(GameError::InvalidPhaseStep),
            },
            PhaseType::Postcombat => self.process_main_phase(),
            PhaseType::Ending => match step_type {
                Some(StepType::End) => self.process_end_step(),
                Some(StepType::Cleanup) => self.process_cleanup_step(),
                _ => Err(GameError::InvalidPhaseStep),
            },
        }
    }

    /// The untap step: reset the active player's land-drop count and clear
    /// summoning sickness from their creatures. Untapping permanents is a
    /// documented gap; no player receives priority during this step.
    #[verifier::loop_isolation(false)]
    fn process_untap_step(&mut self) -> (r: Result<(), GameError>)
        requires
            old(self).wf(),
            old(self).players@.len() > 0,
        ensures
            final(self).wf(),
            final(self).players@.len() == old(self).players@.len(),
            untap_rel(*old(self), *final(self), r),
    {
        let act = self.active_player_id;
        proof {
            crate::game::lemma_player_idx_under_wf(self.players@, act);
        }
        proof {
            assert(old(self).players@[act as int].wf());
        }
        let p = self.get_player_mut(act);
        p.reset_lands_played();
        proof {
            assert((act as int) < old(self).players@.len());
            assert(player_idx(old(self).players@, act) == act as int);
            assert(self.players@ == old(self).players@.update(act as int, self.players@[act as int]));
            assert(self.players@[act as int] == (Player {
                lands_played_this_turn: 0u32,
                ..old(self).players@[act as int]
            }));
            assert(self.players@[act as int].hand == old(self).players@[act as int].hand);
            assert(self.players@[act as int].library == old(self).players@[act as int].library);
            assert(self.players@[act as int].mana_pool.wf());
            assert(same_but_players(*old(self), *self));
            crate::game_events::lemma_players_update_keeps_wf(
                *old(self),
                *self,
                act as int,
            );
        }
        let ghost g1 = *self;
        let n = self.battlefield.len();
        let mut k: usize = 0;
        while k < n
            invariant
                self.wf(),
                n == self.battlefield@.len(),
                self.battlefield@.len() == g1.battlefield@.len(),
                k <= n,
                crate::game::same_but_battlefield(g1, *self),
                forall|j: int|
                    k <= j < n ==> (#[trigger] self.battlefield@[j]) == g1.battlefield@[j],
                forall|j: int|
                    0 <= j < k ==> (#[trigger] self.battlefield@[j]) == (
                    if g1.battlefield@[j].state.controller == act
                        && g1.battlefield@[j].state.creature is Some {
                        GameObj {
                            state: BattlefieldState {
                                creature: Some(
                                    CreatureAspect {
                                        summoning_sick: false,
                                        ..g1.battlefield@[j].state.creature->0
                                    },
                                ),
                                ..g1.battlefield@[j].state
                            },
                            ..g1.battlefield@[j]
                        }
                    } else {
                        g1.battlefield@[j]
                    }),
            decreases n - k,
        {
            let ghost before = *self;
            if self.battlefield[k].state.controller == act {
                let obj = &mut self.battlefield[k];
                match &mut obj.state.creature {
                    Some(aspect) => {
                        aspect.summoning_sick = false;
                    },
                    None => {},
                }
                proof {
                    crate::game_events::lemma_bf_update_keeps_wf(before, *self, k as int);
                }
            }
            k = k + 1;
        }
        Ok(())
    }

    /// The upkeep step: the active player receives priority.
    fn process_upkeep_step(&mut self) -> (r: Result<(), GameError>)
        requires
            old(self).wf(),
            old(self).players@.len() > 0,
        ensures
            final(self).wf(),
            r is Ok,
            *final(self) == (Game { priority_player_id: old(self).active_player_id, ..*old(self) }),
    {
        self.priority_player_id = self.active_player_id;
        Ok(())
    }

    /// The draw step: the active player draws a card, then receives
    /// priority. Drawing from an empty library fails the step.
    fn process_draw_step(&mut self) -> (r: Result<(), GameError>)
        requires
            old(self).wf(),
            old(self).players@.len() > 0,
        ensures
            final(self).wf(),
            final(self).players@.len() == old(self).players@.len(),
            draw_step_rel(*old(self), *final(self), r),
    {
        let act = self.active_player_id;
        proof {
            crate::game::lemma_player_idx_under_wf(self.players@, act);
        }
        if self.players[act].library.is_empty() {
            return Err(GameError::LibraryEmpty);
        }
        let p = self.get_player_mut(act);
        match p.draw_card() {
            Ok(_) => {},
            Err(_) => {
                proof {
                    assert(false);
                }
            },
        }
        proof {
            let oldp = old(self).players@[act as int];
            assert forall|i2: int|
                0 <= i2 < self.players@[act as int].hand@.len() implies (
            #[trigger] self.players@[act as int].hand@[i2]).creature_consistent()
                && self.players@[act as int].hand@[i2].owner < old(self).players@.len() by {
                if i2 < oldp.hand@.len() {
                    assert(self.players@[act as int].hand@[i2] == oldp.hand@[i2]);
                    assert(oldp.wf());
                } else {
                    assert(self.players@[act as int].hand@[i2] == spec_to_hand(
                        oldp.library@.last(),
                    ));
                    assert(oldp.wf());
                    assert(oldp.library@[oldp.library@.len() - 1].creature_consistent());
                }
            }
            assert forall|i2: int|
                0 <= i2 < self.players@[act as int].library@.len() implies (
            #[trigger] self.players@[act as int].library@[i2]).creature_consistent()
                && self.players@[act as int].library@[i2].owner < old(self).players@.len() by {
                assert(self.players@[act as int].library@[i2] == oldp.library@[i2]);
                assert(oldp.wf());
            }
            crate::game_events::lemma_players_update_keeps_wf(*old(self), *self, act as int);
        }
        self.priority_player_id = act;
        Ok(())
    }

    /// A main phase: the active player receives priority.
    fn process_main_phase(&mut self) -> (r: Result<(), GameError>)
        requires
            old(self).wf(),
            old(self).players@.len() > 0,
        ensures
            final(self).wf(),
            r is Ok,
            *final(self) == (Game { priority_player_id: old(self).active_player_id, ..*old(self) }),
    {
        self.priority_player_id = self.active_player_id;
        Ok(())
    }

    /// The beginning-of-combat step: the active player receives priority.
    fn process_begin_combat_step(&mut self) -> (r: Result<(), GameError>)
        requires
            old(self).wf(),
            old(self).players@.len() > 0,
        ensures
            final(self).wf(),
            r is Ok,
            *final(self) == (Game { priority_player_id: old(self).active_player_id, ..*old(self) }),
    {
        self.priority_player_id = self.active_player_id;
        Ok(())
    }

    /// The first-strike damage step: first strike is not implemented yet;
    /// the active player receives priority.
    fn process_first_strike_damage_step(&mut self) -> (r: Result<(), GameError>)
        requires
            old(self).wf(),
            old(self).players@.len() > 0,
        ensures
            final(self).wf(),
            r is Ok,
            *final(self) == (Game { priority_player_id: old(self).active_player_id, ..*old(self) }),
    {
        self.priority_player_id = self.active_player_id;
        Ok(())
    }

    /// The end step: the active player receives priority.
    fn process_end_step(&mut self) -> (r: Result<(), GameError>)
        requires
            old(self).wf(),
            old(self).players@.len() > 0,
        ensures
            final(self).wf(),
            r is Ok,
            *final(self) == (Game { priority_player_id: old(self).active_player_id, ..*old(self) }),
    {
        self.priority_player_id = self.active_player_id;
        Ok(())
    }

    /// The cleanup step: discarding to maximum hand size is a documented
    /// gap, and normally no player receives priority, so nothing happens.
    fn process_cleanup_step(&mut self) -> (r: Result<(), GameError>)
        requires
            old(self).wf(),
        ensures
            final(self).wf(),
            r is Ok,
            *final(self) == *old(self),
    {
        Ok(())
    }

    /// Declare one creature as an attacker: tap it (the cost of attacking)
    /// and record what it attacks.
    fn declare_attacker(&mut self, attacker_id: ObjectId, target: AttackTarget) -> (r: Result<
        (),
        GameError,
    >)
        requires
            old(self).wf(),
        ensures
            final(self).wf(),
            attack_declare_rel(*old(self), *final(self), AttackDeclaration { attacker_id, target }, r),
            final(self).players@.len() == old(self).players@.len(),
    {
        let bi = match self.bf_find(attacker_id) {
            None => {
                return Err(GameError::PermanentNotFound);
            },
            Some(i) => i,
        };
        let ghost pre = *self;
        self.battlefield[bi].state.tapped = true;
        proof {
            crate::game_events::lemma_bf_update_keeps_wf(pre, *self, bi as int);
        }
        let ghost tapped_state = *self;
        let obj = &mut self.battlefield[bi];
        match &mut obj.state.creature {
            Some(aspect) => {
                aspect.attacking = Some(
                    AttackingState { target, is_blocked: false, blocked_by: Vec::new() },
                );
            },
            None => {
                proof {
                    crate::game_events::lemma_bf_update_keeps_wf(tapped_state, *self, bi as int);
                }
                return Err(GameError::NotACreature);
            },
        }
        proof {
            crate::game_events::lemma_bf_update_keeps_wf(tapped_state, *self, bi as int);
        }
        Ok(())
    }

    /// Declare one creature as a blocker of one attacker: the attacker
    /// records the blocker, and the blocker records the attacker.
    #[verifier::rlimit(100)]
    #[verifier::spinoff_prover]
    fn declare_blocker(&mut self, blocker_id: ObjectId, attacker_id: ObjectId) -> (r: Result<
        (),
        GameError,
    >)
        requires
            old(self).wf(),
        ensures
            final(self).wf(),
            block_declare_rel(
                *old(self),
                *final(self),
                BlockDeclaration { blocker_id, attacker_id },
                r,
            ),
            final(self).players@.len() == old(self).players@.len(),
    {
        let ai = match self.bf_find(attacker_id) {
            None => {
                return Err(GameError::PermanentNotFound);
            },
            Some(i) => i,
        };
        // Check the attacker's shape before touching anything.
        match &self.battlefield[ai].state.creature {
            None => {
                return Err(GameError::NotACreature);
            },
            Some(aspect) => {
                if aspect.attacking.is_none() {
                    return Err(GameError::NotAttacking);
                }
            },
        }
        let ghost pre = *self;
        {
            let att = &mut self.battlefield[ai];
            match &mut att.state.creature {
                Some(aspect) => {
                    match &mut aspect.attacking {
                        Some(attacking_state) => {
                            attacking_state.blocked_by.push(blocker_id);
                        },
                        None => {
                            proof {
                                assert(false);
                            }
                        },
                    }
                },
                None => {
                    proof {
                        assert(false);
                    }
                },
            }
        }
        proof {
            crate::game_events::lemma_bf_update_keeps_wf(pre, *self, ai as int);
        }
        let ghost mid = *self;
        proof {
            let g0 = *old(self);
            assert(crate::game::same_but_battlefield(g0, mid));
            assert(mid.battlefield@.len() == g0.battlefield@.len());
            assert(forall|k: int|
                0 <= k < g0.battlefield@.len() && k != ai as int ==> mid.battlefield@[k]
                    == g0.battlefield@[k]);
            let att0 = g0.battlefield@[ai as int];
            let aspect0 = att0.state.creature->0;
            let ast0 = aspect0.attacking->0;
            assert(mid.battlefield@[ai as int] == (GameObj {
                state: BattlefieldState {
                    creature: mid.battlefield@[ai as int].state.creature,
                    ..att0.state
                },
                ..att0
            }));
            assert(mid.battlefield@[ai as int].state.creature matches Some(a2) && a2
                == (CreatureAspect { attacking: a2.attacking, ..aspect0 }) && (
            a2.attacking matches Some(st2) && st2 == (AttackingState {
                blocked_by: st2.blocked_by,
                ..ast0
            }) && st2.blocked_by@ == ast0.blocked_by@.push(blocker_id)));
        }
        let bi = match self.bf_find(blocker_id) {
            None => {
                return Err(GameError::PermanentNotFound);
            },
            Some(i) => i,
        };
        // Check the blocker's shape before touching it.
        match &self.battlefield[bi].state.creature {
            None => {
                return Err(GameError::NotACreature);
            },
            Some(_) => {},
        }
        let blk = &mut self.battlefield[bi];
        match &mut blk.state.creature {
            Some(baspect) => {
                if baspect.blocking.is_none() {
                    baspect.blocking = Some(
                        BlockingState { blocking: Vec::new(), max_can_block: 1 },
                    );
                }
                match &mut baspect.blocking {
                    Some(blocking_state) => {
                        blocking_state.blocking.push(attacker_id);
                    },
                    None => {
                        proof {
                            assert(false);
                        }
                    },
                }
            },
            None => {
                proof {
                    assert(false);
                }
            },
        }
        proof {
            crate::game_events::lemma_bf_update_keeps_wf(mid, *self, bi as int);
            let blk0 = mid.battlefield@[bi as int];
            let baspect0 = blk0.state.creature->0;
            assert(crate::game::same_but_battlefield(mid, *self));
            assert(self.battlefield@.len() == mid.battlefield@.len());
            assert(forall|k: int|
                0 <= k < mid.battlefield@.len() && k != bi as int ==> self.battlefield@[k]
                    == mid.battlefield@[k]);
            assert(self.battlefield@[bi as int] == (GameObj {
                state: BattlefieldState {
                    creature: self.battlefield@[bi as int].state.creature,
                    ..blk0.state
                },
                ..blk0
            }));
            assert(self.battlefield@[bi as int].state.creature matches Some(b2) && b2
                == (CreatureAspect { blocking: b2.blocking, ..baspect0 }) && (
            b2.blocking matches Some(bs2) && bs2.max_can_block == (match baspect0.blocking {
                Some(bs) => bs.max_can_block,
                None => 1u32,
            }) && bs2.blocking@ == (match baspect0.blocking {
                Some(bs) => bs.blocking@,
                None => Seq::<ObjectId>::empty(),
            }).push(attacker_id)));
            assert(blocker_update_rel(
                mid,
                *self,
                BlockDeclaration { blocker_id, attacker_id },
                Ok(()),
            ));
        }
        Ok(())
    }
}

impl Game {
    /// Whether any battlefield creature is currently attacking.
    fn bf_has_attackers(&self) -> (r: bool)
        ensures
            r == spec_has_attackers(self.battlefield@),
    {
        let n = self.battlefield.len();
        let mut i: usize = 0;
        while i < n
            invariant
                n == self.battlefield@.len(),
                i <= n,
                forall|j: int|
                    0 <= j < i ==> !((#[trigger] self.battlefield@[j]).state.creature matches Some(
                        a,
                    ) && a.attacking is Some),
            decreases n - i,
        {
            let is_attacking = match &self.battlefield[i].state.creature {
                Some(a) => a.attacking.is_some(),
                None => false,
            };
            if is_attacking {
                return true;
            }
            i = i + 1;
        }
        false
    }

    /// The declare-attackers step: apply the pending attack declarations,
    /// mark attackers as declared, and give the active player priority.
    #[verifier::loop_isolation(false)]
    fn process_declare_attackers_step(&mut self) -> (r: Result<(), GameError>)
        requires
            old(self).wf(),
            old(self).players@.len() > 0,
        ensures
            final(self).wf(),
            final(self).players@.len() == old(self).players@.len(),
            declare_attackers_rel(*old(self), *final(self), r),
    {
        let decls: Vec<AttackDeclaration> = match self.pending_attack_declarations.take() {
            Some(ds) => ds,
            None => Vec::new(),
        };
        let ghost g2 = attacks_consumed(*old(self));
        let ghost decls_seq: Seq<AttackDeclaration> = pending_attacks_of(*old(self));
        proof {
            assert(*self == g2);
            assert(decls@ == decls_seq);
            assert(decls_seq.take(0) =~= Seq::<AttackDeclaration>::empty());
        }
        let n = decls.len();
        let mut i: usize = 0;
        while i < n
            invariant
                self.wf(),
                self.players@.len() == old(self).players@.len(),
                self.active_player_id == old(self).active_player_id,
                n == decls@.len(),
                i <= n,
                attacks_chain(g2, *self, decls@.take(i as int), Ok(())),
            decreases n - i,
        {
            let ghost before = *self;
            let d = decls[i];
            match self.declare_attacker(d.attacker_id, d.target) {
                Ok(_) => {
                    proof {
                        assert(d == (AttackDeclaration {
                            attacker_id: d.attacker_id,
                            target: d.target,
                        }));
                        lemma_attacks_chain_snoc(
                            g2,
                            before,
                            *self,
                            decls@.take(i as int),
                            d,
                            Ok(()),
                        );
                        assert(decls@.take(i as int + 1) =~= decls@.take(i as int).push(d));
                    }
                },
                Err(e) => {
                    proof {
                        assert(d == (AttackDeclaration {
                            attacker_id: d.attacker_id,
                            target: d.target,
                        }));
                        lemma_attacks_chain_err(
                            g2,
                            before,
                            *self,
                            decls@,
                            i as int,
                            Err(e),
                        );
                        assert(attacks_chain(attacks_consumed(*old(self)), *self, pending_attacks_of(*old(self)), Err(e)));
                    }
                    return Err(e);
                },
            }
            i = i + 1;
        }
        let ghost midg = *self;
        proof {
            assert(decls@.take(n as int) =~= decls@);
        }
        self.attacks_declared = true;
        self.priority_player_id = self.active_player_id;
        proof {
            assert(*self == (Game {
                attacks_declared: true,
                priority_player_id: old(self).active_player_id,
                ..midg
            }));
            assert(attacks_chain(
                attacks_consumed(*old(self)),
                midg,
                pending_attacks_of(*old(self)),
                Ok::<(), GameError>(()),
            ));
        }
        Ok(())
    }

    /// The declare-blockers step: with attackers present, apply the
    /// pending block declarations; either way the active player then
    /// receives priority.
    #[verifier::loop_isolation(false)]
    fn process_declare_blockers_step(&mut self) -> (r: Result<(), GameError>)
        requires
            old(self).wf(),
            old(self).players@.len() > 0,
        ensures
            final(self).wf(),
            final(self).players@.len() == old(self).players@.len(),
            declare_blockers_rel(*old(self), *final(self), r),
    {
        if !self.bf_has_attackers() {
            self.priority_player_id = self.active_player_id;
            return Ok(());
        }
        let decls: Vec<BlockDeclaration> = match self.pending_block_declarations.take() {
            Some(ds) => ds,
            None => Vec::new(),
        };
        let ghost g2 = blocks_consumed(*old(self));
        let ghost decls_seq: Seq<BlockDeclaration> = pending_blocks_of(*old(self));
        proof {
            assert(*self == g2);
            assert(decls@ == decls_seq);
            assert(decls_seq.take(0) =~= Seq::<BlockDeclaration>::empty());
        }
        let n = decls.len();
        let mut i: usize = 0;
        while i < n
            invariant
                self.wf(),
                self.players@.len() == old(self).players@.len(),
                self.active_player_id == old(self).active_player_id,
                n == decls@.len(),
                i <= n,
                blocks_chain(g2, *self, decls@.take(i as int), Ok(())),
            decreases n - i,
        {
            let ghost before = *self;
            let d = decls[i];
            match self.declare_blocker(d.blocker_id, d.attacker_id) {
                Ok(_) => {
                    proof {
                        assert(d == (BlockDeclaration {
                            blocker_id: d.blocker_id,
                            attacker_id: d.attacker_id,
                        }));
                        lemma_blocks_chain_snoc(
                            g2,
                            before,
                            *self,
                            decls@.take(i as int),
                            d,
                            Ok(()),
                        );
                        assert(decls@.take(i as int + 1) =~= decls@.take(i as int).push(d));
                    }
                },
                Err(e) => {
                    proof {
                        assert(d == (BlockDeclaration {
                            blocker_id: d.blocker_id,
                            attacker_id: d.attacker_id,
                        }));
                        lemma_blocks_chain_err(
                            g2,
                            before,
                            *self,
                            decls@,
                            i as int,
                            Err(e),
                        );
                        assert(blocks_chain(blocks_consumed(*old(self)), *self, pending_blocks_of(*old(self)), Err(e)));
                    }
                    return Err(e);
                },
            }
            i = i + 1;
        }
        let ghost midg = *self;
        proof {
            assert(decls@.take(n as int) =~= decls@);
            assert(blocks_chain(
                blocks_consumed(*old(self)),
                midg,
                pending_blocks_of(*old(self)),
                Ok::<(), GameError>(()),
            ));
        }
        self.priority_player_id = self.active_player_id;
        proof {
            assert(*self == (Game {
                priority_player_id: old(self).active_player_id,
                ..midg
            }));
        }
        Ok(())
    }

    /// The combat-damage step: deal the pending damage assignments through
    /// the two-stage damage protocol, check state-based actions, and give
    /// the active player priority.
    #[verifier::loop_isolation(false)]
    fn process_combat_damage_step(&mut self) -> (r: Result<(), GameError>)
        requires
            old(self).wf(),
            old(self).players@.len() > 0,
        ensures
            final(self).wf(),
            final(self).players@.len() == old(self).players@.len(),
            combat_damage_rel(*old(self), *final(self), r),
    {
        let assigns: Vec<CombatDamageAssignment> = match self.pending_damage_assignments.take() {
            Some(ds) => ds,
            None => Vec::new(),
        };
        let ghost g2 = assignments_consumed(*old(self));
        let ghost assigns_seq: Seq<CombatDamageAssignment> = pending_assignments_of(*old(self));
        proof {
            assert(*self == g2);
            assert(assigns@ == assigns_seq);
            assert(assigns_seq.take(0) =~= Seq::<CombatDamageAssignment>::empty());
        }
        let n = assigns.len();
        let mut i: usize = 0;
        while i < n
            invariant
                self.wf(),
                self.players@.len() == old(self).players@.len(),
                self.active_player_id == old(self).active_player_id,
                n == assigns@.len(),
                i <= n,
                assignments_chain(g2, *self, assigns@.take(i as int), Ok(())),
            decreases n - i,
        {
            let ghost before = *self;
            let a = assigns[i];
            let target_ref = assignment_target_ref(&a);
            let res = self.handle_event(
                &GameEvent::DamageAboutToBeDealt {
                    source_id: a.source_id,
                    target_ref,
                    amount: a.amount as u64,
                },
            );
            match res {
                Ok(_) => {
                    proof {
                        assert(damage_dealt_rel(before, *self, assignment_target(a), a.amount as u64, Ok(())));
                        let t = assignment_target(a);
                        if t.ref_id is Player {
                            let pid = t.ref_id->Player_0;
                            let pi = player_idx(before.players@, pid);
                            assert(pi >= 0);
                            crate::game::lemma_player_idx_props(before.players@, pid);
                            assert(self.players@ == before.players@.update(
                                pi,
                                Player {
                                    life_total: crate::game_events::life_after_damage(
                                        before.players@[pi].life_total as int,
                                        a.amount as u64,
                                    ) as i64,
                                    ..before.players@[pi]
                                },
                            ));
                            assert(self.players@.len() == before.players@.len());
                        } else {
                            assert(self.players@ == before.players@);
                        }
                        lemma_assignments_chain_snoc(
                            g2,
                            before,
                            *self,
                            assigns@.take(i as int),
                            a,
                            Ok(()),
                        );
                        assert(assigns@.take(i as int + 1) =~= assigns@.take(i as int).push(a));
                    }
                },
                Err(e) => {
                    proof {
                        lemma_assignments_chain_err(
                            g2,
                            before,
                            *self,
                            assigns@,
                            i as int,
                            Err(e),
                        );
                        assert(assignments_chain(assignments_consumed(*old(self)), *self, pending_assignments_of(*old(self)), Err(e)));
                        let t = assignment_target(a);
                        if t.ref_id is Player {
                            let pid = t.ref_id->Player_0;
                            crate::game::lemma_player_idx_props(before.players@, pid);
                            assert(self.players@.len() == before.players@.len());
                        } else {
                            assert(self.players@.len() == before.players@.len());
                        }
                    }
                    return Err(e);
                },
            }
            i = i + 1;
        }
        proof {
            assert(assigns@.take(n as int) =~= assigns@);
        }
        let ghost mid = *self;
        proof {
            assert(assignments_chain(
                assignments_consumed(*old(self)),
                mid,
                pending_assignments_of(*old(self)),
                Ok::<(), GameError>(()),
            ));
        }
        let res = self.handle_event(&GameEvent::CheckStateBasedActions);
        match res {
            Ok(_) => {},
            Err(_) => {
                proof {
                    assert(false);
                }
            },
        }
        let ghost mid2 = *self;
        self.priority_player_id = self.active_player_id;
        proof {
            assert(sba_rel(mid, mid2));
            assert(*self == (Game {
                priority_player_id: old(self).active_player_id,
                ..mid2
            }));
        }
        Ok(())
    }

    /// The end-of-combat step: clear combat state from every creature,
    /// reset the declaration flags, and give the active player priority.
    #[verifier::loop_isolation(false)]
    fn process_end_combat_step(&mut self) -> (r: Result<(), GameError>)
        requires
            old(self).wf(),
            old(self).players@.len() > 0,
        ensures
            final(self).wf(),
            final(self).players@.len() == old(self).players@.len(),
            end_combat_rel(*old(self), *final(self), r),
    {
        let ghost g0 = *old(self);
        let n = self.battlefield.len();
        let mut k: usize = 0;
        while k < n
            invariant
                self.wf(),
                n == self.battlefield@.len(),
                self.battlefield@.len() == g0.battlefield@.len(),
                k <= n,
                crate::game::same_but_battlefield(g0, *self),
                forall|j: int|
                    k <= j < n ==> (#[trigger] self.battlefield@[j]) == g0.battlefield@[j],
                forall|j: int|
                    0 <= j < k ==> (#[trigger] self.battlefield@[j]) == (
                    match g0.battlefield@[j].state.creature {
                        Some(aspect) => GameObj {
                            state: BattlefieldState {
                                creature: Some(
                                    CreatureAspect { attacking: None, blocking: None, ..aspect },
                                ),
                                ..g0.battlefield@[j].state
                            },
                            ..g0.battlefield@[j]
                        },
                        None => g0.battlefield@[j],
                    }),
            decreases n - k,
        {
            let ghost before = *self;
            let obj = &mut self.battlefield[k];
            match &mut obj.state.creature {
                Some(aspect) => {
                    aspect.attacking = None;
                    aspect.blocking = None;
                },
                None => {},
            }
            proof {
                crate::game_events::lemma_bf_update_keeps_wf(before, *self, k as int);
            }
            k = k + 1;
        }
        self.attacks_declared = false;
        self.blockers_declared = false;
        self.priority_player_id = self.active_player_id;
        Ok(())
    }

    /// Force the turn structure to its next step or phase and process it.
    ///
    /// Within a phase with a remaining step, the step advances; otherwise
    /// the next phase begins, and on the Ending-to-Beginning wraparound
    /// the turn counter increments and the active player rotates. Mana
    /// pools empty at the boundary, and the new step's turn-based actions
    /// run.
    pub fn advance_turn(&mut self) -> (r: Result<(), GameError>)
        requires
            old(self).wf(),
            old(self).players@.len() > 0,
            old(self).turn_number < u32::MAX,
        ensures
            final(self).wf(),
            final(self).players@.len() == old(self).players@.len(),
            advance_rel(*old(self), *final(self), r),
    {
        let ghost pre = *old(self);
        if self.phase.has_steps() {
            let old_step_type = match &self.phase.current_step {
                Some(s) => s.step_type,
                None => vstd::pervasive::unreached(),
            };
            let advanced = self.phase.next_step();
            if advanced {
                let res = self.handle_event(&GameEvent::StepEnded { step_type: old_step_type });
                match res {
                    Ok(_) => {},
                    Err(_) => {
                        proof {
                            assert(false);
                        }
                    },
                }
                let ghost mid = *self;
                proof {
                    assert(advance_shell_rel(pre, mid));
                }
                let res2 = self.process_current_phase();
                proof {
                    assert(step_process_rel(mid, *self, res2));
                }
                return res2;
            }
        }
        let old_phase_type = self.phase.phase_type;
        let npt = crate::turns::next_phase_type(&old_phase_type);
        let res = self.handle_event(&GameEvent::PhaseEnded { phase_type: old_phase_type });
        match res {
            Ok(_) => {},
            Err(_) => {
                proof {
                    assert(false);
                }
            },
        }
        if matches!(old_phase_type, PhaseType::Ending) {
            proof {
                assert(self.players@.len() == pre.players@.len());
                assert(self.players@.len() > 0);
                assert(self.active_player_id < self.players@.len());
                assert(self.turn_number < u32::MAX);
            }
            self.turn_number = self.turn_number + 1;
            let player_count = self.players.len();
            self.active_player_id = (self.active_player_id + 1) % player_count;
        }
        self.phase = Phase::new(npt);
        let ghost mid = *self;
        proof {
            assert(phase_shell_rel(pre, mid));
            assert(advance_shell_rel(pre, mid));
        }
        let res2 = self.process_current_phase();
        proof {
            assert(step_process_rel(mid, *self, res2));
        }
        res2
    }

    /// Check state-based actions, as done whenever a player would receive
    /// priority.
    pub fn check_state_based_actions_if_needed(&mut self) -> (r: Result<(), GameError>)
        requires
            old(self).wf(),
        ensures
            final(self).wf(),
            r is Ok,
            sba_rel(*old(self), *final(self)),
    {
        self.handle_event(&GameEvent::CheckStateBasedActions)
    }

    /// Give priority to a player, checking state-based actions first.
    pub fn give_priority(&mut self, player_id: PlayerId) -> (r: Result<(), GameError>)
        requires
            old(self).wf(),
            old(self).players@.len() > 0 ==> player_id < old(self).players@.len(),
        ensures
            final(self).wf(),
            r is Ok,
            exists|mid: Game|
                #[trigger] sba_rel(*old(self), mid) && *final(self) == (Game {
                    priority_player_id: player_id,
                    ..mid
                }),
    {
        let res = self.check_state_based_actions_if_needed();
        match res {
            Ok(_) => {},
            Err(_) => {
                proof {
                    assert(false);
                }
            },
        }
        let ghost mid = *self;
        self.priority_player_id = player_id;
        proof {
            assert(sba_rel(*old(self), mid));
        }
        Ok(())
    }
}

/// The target reference a damage assignment resolves to.
fn assignment_target_ref(a: &CombatDamageAssignment) -> (r: TargetRef)
    ensures
        r == assignment_target(*a),
{
    match a.target_id {
        DamageRecipient::Player(pid) => TargetRef { ref_id: TargetRefId::Player(pid) },
        DamageRecipient::Creature(oid) => TargetRef { ref_id: TargetRefId::Object(oid) },
        DamageRecipient::Planeswalker(oid) => TargetRef { ref_id: TargetRefId::Object(oid) },
        DamageRecipient::Battle(oid) => TargetRef { ref_id: TargetRefId::Object(oid) },
    }
}

} // verus!
