use vstd::prelude::*;
use crate::costs::{Cost, ManaCost};
use crate::errors::GameError;
use crate::game::{Game, player_idx, same_but_battlefield, same_but_players,
    same_but_players_battlefield};
use crate::game_objects::{BattlefieldState, GameObj};
use crate::ids::{ObjectId, PlayerId};
use crate::mana::{ManaType, PoolSnapshot, lemma_pool_amount_zero_when_absent,
    lemma_pool_total_by_types, snapshot_of, snapshot_total};
use crate::obj_lookup::first_idx_by_id;
use crate::player::{Player, player_same_but_pool};

verus! {

/// The sum of a mana cost's non-generic components.
pub open spec fn colored_cost_total(mc: ManaCost) -> int {
    mc.white + mc.blue + mc.black + mc.red + mc.green + mc.colorless
}

/// Whether a pool holding the amounts in `s` can pay `mc`: each colored
/// component is covered by its type, and what remains after the colored
/// deductions covers the generic component.
pub open spec fn can_pay_mana_model(s: PoolSnapshot, mc: ManaCost) -> bool {
    &&& s.white >= mc.white
    &&& s.blue >= mc.blue
    &&& s.black >= mc.black
    &&& s.red >= mc.red
    &&& s.green >= mc.green
    &&& s.colorless >= mc.colorless
    &&& snapshot_total(s) - colored_cost_total(mc) >= mc.generic
}

/// The pool after the colored components of `mc` are deducted.
pub open spec fn snapshot_minus_colored(s: PoolSnapshot, mc: ManaCost) -> PoolSnapshot {
    PoolSnapshot {
        white: (s.white - mc.white) as u64,
        blue: (s.blue - mc.blue) as u64,
        black: (s.black - mc.black) as u64,
        red: (s.red - mc.red) as u64,
        green: (s.green - mc.green) as u64,
        colorless: (s.colorless - mc.colorless) as u64,
    }
}

/// How much of `need` an amount of `avail` mana can cover.
pub open spec fn spec_take(avail: u64, need: int) -> int {
    if need <= avail {
        need
    } else {
        avail as int
    }
}

/// The pool after paying `mc` in full: colored components by their types,
/// then the generic component greedily in the fixed order Colorless,
/// White, Blue, Black, Red, Green.
pub open spec fn pay_mana_model(s: PoolSnapshot, mc: ManaCost) -> PoolSnapshot {
    let s1 = snapshot_minus_colored(s, mc);
    let g0 = mc.generic as int;
    let take_c = spec_take(s1.colorless, g0);
    let g1 = g0 - take_c;
    let take_w = spec_take(s1.white, g1);
    let g2 = g1 - take_w;
    let take_u = spec_take(s1.blue, g2);
    let g3 = g2 - take_u;
    let take_b = spec_take(s1.black, g3);
    let g4 = g3 - take_b;
    let take_r = spec_take(s1.red, g4);
    let g5 = g4 - take_r;
    let take_g = spec_take(s1.green, g5);
    PoolSnapshot {
        white: (s1.white - take_w) as u64,
        blue: (s1.blue - take_u) as u64,
        black: (s1.black - take_b) as u64,
        red: (s1.red - take_r) as u64,
        green: (s1.green - take_g) as u64,
        colorless: (s1.colorless - take_c) as u64,
    }
}

impl Cost {
    /// Whether this cost can be paid right now, without paying it.
    ///
    /// A tap cost needs its permanent named and present, and payable
    /// exactly when the permanent is untapped. A mana cost is payable
    /// exactly when the player exists and the pool covers the cost.
    pub fn can_pay(&self, game: &Game, player_id: PlayerId, permanent_id: Option<ObjectId>) -> (r:
        Result<bool, GameError>)
        requires
            game.wf(),
        ensures
            match *self {
                Cost::Tap => match permanent_id {
                    None => r == Err::<bool, GameError>(GameError::TapNeedsPermanent),
                    Some(oid) => {
                        let bi = first_idx_by_id(game.battlefield@, oid);
                        if bi < 0 {
                            r == Err::<bool, GameError>(GameError::PermanentNotFound)
                        } else {
                            r == Ok::<bool, GameError>(!game.battlefield@[bi].state.tapped)
                        }
                    },
                },
                Cost::Mana(mc) => {
                    let pi = player_idx(game.players@, player_id);
                    if pi < 0 {
                        r == Ok::<bool, GameError>(false)
                    } else {
                        r == Ok::<bool, GameError>(
                            can_pay_mana_model(snapshot_of(game.players@[pi].mana_pool), mc),
                        )
                    }
                },
            },
    {
        match self {
            Cost::Tap => {
                let obj_id = match permanent_id {
                    None => {
                        return Err(GameError::TapNeedsPermanent);
                    },
                    Some(oid) => oid,
                };
                match game.bf_find(obj_id) {
                    None => Err(GameError::PermanentNotFound),
                    Some(i) => Ok(!game.battlefield[i].state.tapped),
                }
            },
            Cost::Mana(mana_cost) => {
                let player = match game.get_player_ref(player_id) {
                    Ok(p) => p,
                    Err(_) => {
                        return Ok(false);
                    },
                };
                let pool = &player.mana_pool;
                if !pool.has_mana(ManaType::White, mana_cost.white as u64) || !pool.has_mana(
                    ManaType::Blue,
                    mana_cost.blue as u64,
                ) || !pool.has_mana(ManaType::Black, mana_cost.black as u64) || !pool.has_mana(
                    ManaType::Red,
                    mana_cost.red as u64,
                ) || !pool.has_mana(ManaType::Green, mana_cost.green as u64) || !pool.has_mana(
                    ManaType::Colorless,
                    mana_cost.colorless as u64,
                ) {
                    proof {
                        lemma_pool_amount_zero_when_absent_all(*pool);
                    }
                    return Ok(false);
                }
                proof {
                    crate::game::lemma_player_idx_props(game.players@, player_id);
                    assert(game.players@[player_idx(game.players@, player_id)].wf());
                    lemma_pool_total_by_types(pool.entries@);
                }
                let total = pool.get_generic_mana();
                let colored: u64 = mana_cost.white as u64 + mana_cost.blue as u64
                    + mana_cost.black as u64 + mana_cost.red as u64 + mana_cost.green as u64
                    + mana_cost.colorless as u64;
                Ok(total - colored >= mana_cost.generic as u64)
            },
        }
    }

    /// Pay this cost, mutating the game.
    ///
    /// Only valid after `can_pay` returned true for the same state: a mana
    /// cost requires the player present with a covering pool; paying then
    /// deducts the colored components and pays the generic component
    /// greedily in the fixed order Colorless, White, Blue, Black, Red,
    /// Green. A tap cost taps the named permanent.
    pub fn pay(&self, game: &mut Game, player_id: PlayerId, permanent_id: Option<ObjectId>) -> (r:
        Result<(), GameError>)
        requires
            old(game).wf(),
            self matches Cost::Mana(mc) ==> player_idx(old(game).players@, player_id) >= 0
                && can_pay_mana_model(
                snapshot_of(
                    old(game).players@[player_idx(old(game).players@, player_id)].mana_pool,
                ),
                *mc,
            ),
        ensures
            final(game).wf(),
            match *self {
                Cost::Tap => match permanent_id {
                    None => r == Err::<(), GameError>(GameError::TapNeedsPermanent) && *final(game)
                        == *old(game),
                    Some(oid) => {
                        let bi = first_idx_by_id(old(game).battlefield@, oid);
                        if bi < 0 {
                            r == Err::<(), GameError>(GameError::PermanentNotFound) && *final(game)
                                == *old(game)
                        } else {
                            let obj = old(game).battlefield@[bi];
                            &&& r is Ok
                            &&& same_but_battlefield(*old(game), *final(game))
                            &&& final(game).battlefield@ == old(game).battlefield@.update(
                                bi,
                                GameObj {
                                    state: BattlefieldState { tapped: true, ..obj.state },
                                    ..obj
                                },
                            )
                        }
                    },
                },
                Cost::Mana(mc) => {
                    let pi = player_idx(old(game).players@, player_id);
                    let oldp = old(game).players@[pi];
                    &&& r is Ok
                    &&& same_but_players(*old(game), *final(game))
                    &&& final(game).players@.len() == old(game).players@.len()
                    &&& final(game).players@ == old(game).players@.update(
                        pi,
                        final(game).players@[pi],
                    )
                    &&& player_same_but_pool(oldp, final(game).players@[pi])
                    &&& snapshot_of(final(game).players@[pi].mana_pool) == pay_mana_model(
                        snapshot_of(oldp.mana_pool),
                        mc,
                    )
                    &&& forall|t: ManaType|
                        final(game).players@[pi].mana_pool.has_type(t)
                            == oldp.mana_pool.has_type(t)
                    &&& final(game).players@[pi].mana_pool.wf()
                },
            },
    {
        match self {
            Cost::Tap => {
                let obj_id = match permanent_id {
                    None => {
                        return Err(GameError::TapNeedsPermanent);
                    },
                    Some(oid) => oid,
                };
                let i = match game.bf_find(obj_id) {
                    None => {
                        return Err(GameError::PermanentNotFound);
                    },
                    Some(i) => i,
                };
                let ghost oldbf = game.battlefield@;
                game.battlefield[i].state.tapped = true;
                proof {
                    let obj = oldbf[i as int];
                    assert(game.battlefield@ == oldbf.update(
                        i as int,
                        GameObj { state: BattlefieldState { tapped: true, ..obj.state }, ..obj },
                    ));
                    assert(final(game).wf()) by {
                        assert forall|a: int, b: int|
                            0 <= a < b < game.battlefield@.len() implies (
                        #[trigger] game.battlefield@[a]).id != (
                        #[trigger] game.battlefield@[b]).id by {
                            assert(oldbf[a].id != oldbf[b].id);
                            assert(game.battlefield@[a].id == oldbf[a].id);
                            assert(game.battlefield@[b].id == oldbf[b].id);
                        }
                        assert forall|k: int|
                            0 <= k < game.battlefield@.len() implies (
                        #[trigger] game.battlefield@[k]).owner < game.players@.len() by {
                            assert(game.battlefield@[k].owner == oldbf[k].owner);
                        }
                    }
                }
                Ok(())
            },
            Cost::Mana(mana_cost) => {
                proof {
                    crate::game::lemma_player_idx_props(game.players@, player_id);
                }
                let player = game.get_player_mut(player_id);
                let ghost pool0 = player.mana_pool;
                let ghost s0 = snapshot_of(player.mana_pool);
                let ghost s1 = snapshot_minus_colored(s0, *mana_cost);
                pay_colored(&mut player.mana_pool, *mana_cost);
                pay_generic(&mut player.mana_pool, *mana_cost, Ghost(s0));
                proof {
                    let pi = player_idx(old(game).players@, player_id);
                    assert(final(game).wf()) by {
                        let oldg = old(game);
                        assert forall|k: int|
                            0 <= k < game.players@.len() implies (
                        #[trigger] game.players@[k]).wf() && game.players@[k].id == k by {
                            if k != pi {
                                assert(game.players@[k] == oldg.players@[k]);
                            }
                        }
                        assert forall|p: int, i: int|
                            0 <= p < game.players@.len() && 0 <= i
                                < game.players@[p].hand@.len() implies (
                        #[trigger] game.players@[p].hand@[i]).owner < game.players@.len() by {
                            assert(game.players@[p].hand@ == oldg.players@[p].hand@);
                        }
                        assert forall|p: int, i: int|
                            0 <= p < game.players@.len() && 0 <= i
                                < game.players@[p].library@.len() implies (
                        #[trigger] game.players@[p].library@[i]).owner < game.players@.len() by {
                            assert(game.players@[p].library@ == oldg.players@[p].library@);
                        }
                    }
                }
                Ok(())
            },
        }
    }
}

/// Deduct the colored components of `mc` from the pool.
fn pay_colored(pool: &mut crate::mana::ManaPool, mc: ManaCost)
    requires
        old(pool).wf(),
        snapshot_of(*old(pool)).white >= mc.white,
        snapshot_of(*old(pool)).blue >= mc.blue,
        snapshot_of(*old(pool)).black >= mc.black,
        snapshot_of(*old(pool)).red >= mc.red,
        snapshot_of(*old(pool)).green >= mc.green,
        snapshot_of(*old(pool)).colorless >= mc.colorless,
    ensures
        final(pool).wf(),
        snapshot_of(*final(pool)) == snapshot_minus_colored(snapshot_of(*old(pool)), mc),
        forall|t: ManaType| final(pool).has_type(t) == old(pool).has_type(t),
        final(pool).total() == old(pool).total() - colored_cost_total(mc),
{
    proof {
        remove_ok(*old(pool), ManaType::White, mc.white as u64);
        remove_ok(*old(pool), ManaType::Blue, mc.blue as u64);
        remove_ok(*old(pool), ManaType::Black, mc.black as u64);
        remove_ok(*old(pool), ManaType::Red, mc.red as u64);
        remove_ok(*old(pool), ManaType::Green, mc.green as u64);
        remove_ok(*old(pool), ManaType::Colorless, mc.colorless as u64);
    }
    let r1 = pool.remove_mana(ManaType::White, mc.white as u64);
    let r2 = pool.remove_mana(ManaType::Blue, mc.blue as u64);
    let r3 = pool.remove_mana(ManaType::Black, mc.black as u64);
    let r4 = pool.remove_mana(ManaType::Red, mc.red as u64);
    let r5 = pool.remove_mana(ManaType::Green, mc.green as u64);
    let r6 = pool.remove_mana(ManaType::Colorless, mc.colorless as u64);
}

/// Removing an amount covered by the pool cannot fail.
proof fn remove_ok(pool: crate::mana::ManaPool, t: ManaType, amount: u64)
    requires
        pool.amount_of(t) >= amount,
    ensures
        amount > 0 ==> pool.has_type(t),
{
    if amount > 0 && !pool.has_type(t) {
        lemma_pool_amount_zero_when_absent(pool.entries@, t);
    }
}

/// Pay the generic component of `mc` greedily in the fixed order
/// Colorless, White, Blue, Black, Red, Green, assuming the colored
/// components were already deducted and the pool covers the whole cost.
fn pay_generic(pool: &mut crate::mana::ManaPool, mc: ManaCost, Ghost(s0): Ghost<PoolSnapshot>)
    requires
        old(pool).wf(),
        can_pay_mana_model(s0, mc),
        snapshot_of(*old(pool)) == snapshot_minus_colored(s0, mc),
    ensures
        final(pool).wf(),
        snapshot_of(*final(pool)) == pay_mana_model(s0, mc),
        forall|t: ManaType| final(pool).has_type(t) == old(pool).has_type(t),
{
    let mut generic_remaining: u64 = mc.generic as u64;
    if generic_remaining == 0 {
        return ;
    }
    let colorless_left = pool.amount(ManaType::Colorless);
    if colorless_left >= generic_remaining {
        proof {
            remove_ok(*pool, ManaType::Colorless, generic_remaining);
        }
        let r = pool.remove_mana(ManaType::Colorless, generic_remaining);
        return ;
    }
    proof {
        remove_ok(*pool, ManaType::Colorless, colorless_left);
    }
    let r = pool.remove_mana(ManaType::Colorless, colorless_left);
    generic_remaining = generic_remaining - colorless_left;

    let white_left = pool.amount(ManaType::White);
    if white_left >= generic_remaining {
        proof {
            remove_ok(*pool, ManaType::White, generic_remaining);
        }
        let r = pool.remove_mana(ManaType::White, generic_remaining);
        return ;
    }
    proof {
        remove_ok(*pool, ManaType::White, white_left);
    }
    let r = pool.remove_mana(ManaType::White, white_left);
    generic_remaining = generic_remaining - white_left;

    let blue_left = pool.amount(ManaType::Blue);
    if blue_left >= generic_remaining {
        proof {
            remove_ok(*pool, ManaType::Blue, generic_remaining);
        }
        let r = pool.remove_mana(ManaType::Blue, generic_remaining);
        return ;
    }
    proof {
        remove_ok(*pool, ManaType::Blue, blue_left);
    }
    let r = pool.remove_mana(ManaType::Blue, blue_left);
    generic_remaining = generic_remaining - blue_left;

    let black_left = pool.amount(ManaType::Black);
    if black_left >= generic_remaining {
        proof {
            remove_ok(*pool, ManaType::Black, generic_remaining);
        }
        let r = pool.remove_mana(ManaType::Black, generic_remaining);
        return ;
    }
    proof {
        remove_ok(*pool, ManaType::Black, black_left);
    }
    let r = pool.remove_mana(ManaType::Black, black_left);
    generic_remaining = generic_remaining - black_left;

    let red_left = pool.amount(ManaType::Red);
    if red_left >= generic_remaining {
        proof {
            remove_ok(*pool, ManaType::Red, generic_remaining);
        }
        let r = pool.remove_mana(ManaType::Red, generic_remaining);
        return ;
    }
    proof {
        remove_ok(*pool, ManaType::Red, red_left);
    }
    let r = pool.remove_mana(ManaType::Red, red_left);
    generic_remaining = generic_remaining - red_left;

    let green_left = pool.amount(ManaType::Green);
    // The pool covers the whole cost, so green covers what remains.
    assert(green_left >= generic_remaining);
    proof {
        remove_ok(*pool, ManaType::Green, generic_remaining);
    }
    let r = pool.remove_mana(ManaType::Green, generic_remaining);
}

/// A pool without an entry for a type holds 0 of that type, for each type.
proof fn lemma_pool_amount_zero_when_absent_all(pool: crate::mana::ManaPool)
    ensures
        forall|t: ManaType| !pool.has_type(t) ==> pool.amount_of(t) == 0,
{
    assert forall|t: ManaType| !pool.has_type(t) implies pool.amount_of(t) == 0 by {
        lemma_pool_amount_zero_when_absent(pool.entries@, t);
    }
}

/// The state cost payment works on: the payer's pool amounts, the named
/// permanent's tapped flag, and whether the payer exists at all.
#[derive(Debug, Clone, Copy, PartialEq, Eq, Structural)]
pub struct CostState {
    pub pool: PoolSnapshot,
    pub tapped: bool,
    pub has_player: bool,
}

/// Whether one cost is payable in the given state.
pub open spec fn cost_payable_one(s: CostState, c: Cost) -> bool {
    match c {
        Cost::Tap => !s.tapped,
        Cost::Mana(mc) => s.has_player && can_pay_mana_model(s.pool, mc),
    }
}

/// The state after paying one cost.
pub open spec fn cost_pay_one(s: CostState, c: Cost) -> CostState {
    match c {
        Cost::Tap => CostState { tapped: true, ..s },
        Cost::Mana(mc) => CostState { pool: pay_mana_model(s.pool, mc), ..s },
    }
}

/// Whether a list of costs can be paid in order, each in the state the
/// earlier payments leave behind.
pub open spec fn costs_payable_seq(s: CostState, cs: Seq<Cost>) -> bool
    decreases cs.len(),
{
    cs.len() == 0 || (cost_payable_one(s, cs[0]) && costs_payable_seq(
        cost_pay_one(s, cs[0]),
        cs.drop_first(),
    ))
}

/// The state after paying a list of costs in order.
pub open spec fn costs_paid_seq(s: CostState, cs: Seq<Cost>) -> CostState
    decreases cs.len(),
{
    if cs.len() == 0 {
        s
    } else {
        costs_paid_seq(cost_pay_one(s, cs[0]), cs.drop_first())
    }
}

/// Whether every cost in the list is payable against the initial state
/// alone; the upfront check run before anything is paid.
pub open spec fn costs_payable_upfront(s: CostState, cs: Seq<Cost>) -> bool {
    forall|i: int| 0 <= i < cs.len() ==> cost_payable_one(s, #[trigger] cs[i])
}

pub proof fn lemma_costs_paid_push(s: CostState, cs: Seq<Cost>, x: Cost)
    ensures
        costs_paid_seq(s, cs.push(x)) == cost_pay_one(costs_paid_seq(s, cs), x),
    decreases cs.len(),
{
    let sp = cs.push(x);
    assert(sp.len() == cs.len() + 1);
    if cs.len() == 0 {
        assert(sp.drop_first() =~= Seq::<Cost>::empty());
        assert(sp[0] == x);
        assert(costs_paid_seq(s, sp) == costs_paid_seq(cost_pay_one(s, x), sp.drop_first()));
        assert(costs_paid_seq(cost_pay_one(s, x), sp.drop_first()) == cost_pay_one(s, x));
    } else {
        assert(sp.drop_first() =~= cs.drop_first().push(x));
        assert(sp[0] == cs[0]);
        lemma_costs_paid_push(cost_pay_one(s, cs[0]), cs.drop_first(), x);
        assert(costs_paid_seq(s, sp) == costs_paid_seq(cost_pay_one(s, cs[0]), sp.drop_first()));
        assert(costs_paid_seq(s, cs) == costs_paid_seq(cost_pay_one(s, cs[0]), cs.drop_first()));
    }
}

pub proof fn lemma_costs_payable_push(s: CostState, cs: Seq<Cost>, x: Cost)
    ensures
        costs_payable_seq(s, cs.push(x)) == (costs_payable_seq(s, cs) && cost_payable_one(
            costs_paid_seq(s, cs),
            x,
        )),
    decreases cs.len(),
{
    let sp = cs.push(x);
    assert(sp.len() == cs.len() + 1);
    if cs.len() == 0 {
        assert(sp.drop_first() =~= Seq::<Cost>::empty());
        assert(sp[0] == x);
        assert(costs_payable_seq(cost_pay_one(s, x), sp.drop_first()));
        assert(costs_paid_seq(s, cs) == s);
        assert(costs_payable_seq(s, cs));
    } else {
        assert(sp.drop_first() =~= cs.drop_first().push(x));
        assert(sp[0] == cs[0]);
        lemma_costs_payable_push(cost_pay_one(s, cs[0]), cs.drop_first(), x);
        lemma_costs_paid_push(cost_pay_one(s, cs[0]), cs.drop_first(), x);
        assert(costs_paid_seq(s, cs) == costs_paid_seq(cost_pay_one(s, cs[0]), cs.drop_first()));
    }
}

/// Paying costs never changes whether the payer exists.
pub proof fn lemma_costs_paid_keeps_player(s: CostState, cs: Seq<Cost>)
    ensures
        costs_paid_seq(s, cs).has_player == s.has_player,
    decreases cs.len(),
{
    if cs.len() > 0 {
        lemma_costs_paid_keeps_player(cost_pay_one(s, cs[0]), cs.drop_first());
    }
}

/// A sequentially payable list is payable at every prefix point.
pub proof fn lemma_costs_payable_at(s: CostState, cs: Seq<Cost>, k: int)
    requires
        0 <= k < cs.len(),
        costs_payable_seq(s, cs),
    ensures
        cost_payable_one(costs_paid_seq(s, cs.take(k)), cs[k]),
    decreases k,
{
    if k == 0 {
        assert(cs.take(0) =~= Seq::<Cost>::empty());
    } else {
        assert(cs.take(k).drop_first() =~= cs.drop_first().take(k - 1));
        assert(cs.take(k)[0] == cs[0]);
        assert(cs.drop_first()[k - 1] == cs[k]);
        lemma_costs_payable_at(cost_pay_one(s, cs[0]), cs.drop_first(), k - 1);
        assert(costs_paid_seq(s, cs.take(k)) == costs_paid_seq(
            cost_pay_one(s, cs[0]),
            cs.drop_first().take(k - 1),
        ));
    }
}

/// The exact state left behind by cost payment: only the payer's pool
/// (its amounts per `m.pool`, with its entry set intact) and the
/// permanent at `bi` (its tapped flag per `m.tapped`) have changed.
pub open spec fn costs_paid_state(pre: Game, post: Game, pi: int, bi: int, m: CostState) -> bool {
    &&& same_but_players_battlefield(pre, post)
    &&& post.battlefield@.len() == pre.battlefield@.len()
    &&& (forall|k: int|
        0 <= k < pre.battlefield@.len() && k != bi ==> post.battlefield@[k]
            == pre.battlefield@[k])
    &&& post.battlefield@[bi] == (GameObj {
        state: BattlefieldState { tapped: m.tapped, ..pre.battlefield@[bi].state },
        ..pre.battlefield@[bi]
    })
    &&& post.players@.len() == pre.players@.len()
    &&& (forall|k: int|
        0 <= k < pre.players@.len() && k != pi ==> post.players@[k] == pre.players@[k])
    &&& (0 <= pi < pre.players@.len() ==> {
        &&& player_same_but_pool(pre.players@[pi], post.players@[pi])
        &&& snapshot_of(post.players@[pi].mana_pool) == m.pool
        &&& (forall|t: ManaType|
            post.players@[pi].mana_pool.has_type(t) == pre.players@[pi].mana_pool.has_type(t))
        &&& post.players@[pi].mana_pool.wf()
    })
    &&& (!(0 <= pi < pre.players@.len()) ==> post.players == pre.players)
}

/// The initial cost-payment state of a game, for the player and the
/// permanent at hand.
pub open spec fn cost_init_state(pre: Game, player_id: PlayerId, permanent_id: ObjectId)
    -> CostState {
    let bi = first_idx_by_id(pre.battlefield@, permanent_id);
    let pi = player_idx(pre.players@, player_id);
    CostState {
        pool: if 0 <= pi < pre.players@.len() {
            snapshot_of(pre.players@[pi].mana_pool)
        } else {
            PoolSnapshot { white: 0u64, blue: 0u64, black: 0u64, red: 0u64, green: 0u64, colorless: 0u64 }
        },
        tapped: pre.battlefield@[bi].state.tapped,
        has_player: 0 <= pi < pre.players@.len(),
    }
}

/// What checking and paying a list of costs does. Every cost is first
/// checked against the initial state; a cost that fails there stops the
/// run with nothing changed. Then each cost is paid in order, re-checked
/// in the state the earlier payments left; a cost that became unpayable
/// stops the run with the earlier payments applied. A fully payable list
/// is paid in full and succeeds.
pub open spec fn cost_payment_rel(
    pre: Game,
    post: Game,
    cs: Seq<Cost>,
    player_id: PlayerId,
    permanent_id: ObjectId,
    r: Result<(), GameError>,
) -> bool {
    let bi = first_idx_by_id(pre.battlefield@, permanent_id);
    let pi = player_idx(pre.players@, player_id);
    let init = cost_init_state(pre, player_id, permanent_id);
    if !costs_payable_upfront(init, cs) {
        r == Err::<(), GameError>(GameError::CannotPayCost) && post == pre
    } else if !costs_payable_seq(init, cs) {
        &&& r == Err::<(), GameError>(GameError::CannotPayCost)
        &&& exists|k: int|
            {
                &&& 0 <= k < cs.len()
                &&& costs_payable_seq(init, #[trigger] cs.take(k))
                &&& !cost_payable_one(costs_paid_seq(init, cs.take(k)), cs[k])
                &&& costs_paid_state(pre, post, pi, bi, costs_paid_seq(init, cs.take(k)))
            }
    } else {
        r is Ok && costs_paid_state(pre, post, pi, bi, costs_paid_seq(init, cs))
    }
}

impl Game {
    /// Check every cost against the current state, then pay each in
    /// order, re-checking just before each payment.
    #[verifier::loop_isolation(false)]
    #[verifier::rlimit(60)]
    pub(crate) fn pay_cost_list(
        &mut self,
        costs: &Vec<Cost>,
        player_id: PlayerId,
        permanent_id: ObjectId,
    ) -> (r: Result<(), GameError>)
        requires
            old(self).wf(),
            first_idx_by_id(old(self).battlefield@, permanent_id) >= 0,
        ensures
            final(self).wf(),
            final(self).players@.len() == old(self).players@.len(),
            cost_payment_rel(*old(self), *final(self), costs@, player_id, permanent_id, r),
            first_idx_by_id(final(self).battlefield@, permanent_id) == first_idx_by_id(
                old(self).battlefield@,
                permanent_id,
            ),
    {
        let ghost pre = *old(self);
        let ghost bi = first_idx_by_id(pre.battlefield@, permanent_id);
        let ghost pi = player_idx(pre.players@, player_id);
        let ghost init = cost_init_state(pre, player_id, permanent_id);
        proof {
            crate::obj_lookup::lemma_first_idx_props(pre.battlefield@, permanent_id);
            crate::game::lemma_player_idx_props(pre.players@, player_id);
        }
        // Check every cost against the current (initial) state.
        let nc = costs.len();
        let mut ci: usize = 0;
        while ci < nc
            invariant
                *self == pre,
                nc == costs@.len(),
                ci <= nc,
                forall|j: int| 0 <= j < ci ==> cost_payable_one(init, #[trigger] costs@[j]),
            decreases nc - ci,
        {
            let payable = match costs[ci].can_pay(self, player_id, Some(permanent_id)) {
                Ok(b) => b,
                Err(_) => {
                    proof {
                        assert(false);
                    }
                    false
                },
            };
            if !payable {
                return Err(GameError::CannotPayCost);
            }
            ci = ci + 1;
        }
        // Pay each cost, re-checking just before the payment.
        let mut pj: usize = 0;
        proof {
            assert(costs@.take(0) =~= Seq::<Cost>::empty());
        }
        while pj < nc
            invariant
                self.wf(),
                nc == costs@.len(),
                pj <= nc,
                costs_payable_upfront(init, costs@),
                costs_payable_seq(init, costs@.take(pj as int)),
                costs_paid_state(pre, *self, pi, bi, costs_paid_seq(init, costs@.take(pj as int))),
                first_idx_by_id(self.battlefield@, permanent_id) == bi,
                player_idx(self.players@, player_id) == pi,
            decreases nc - pj,
        {
            let ghost m_now = costs_paid_seq(init, costs@.take(pj as int));
            proof {
                lemma_costs_paid_keeps_player(init, costs@.take(pj as int));
                assert(m_now.has_player == (0 <= pi < pre.players@.len()));
            }
            let payable = match costs[pj].can_pay(self, player_id, Some(permanent_id)) {
                Ok(b) => b,
                Err(_) => {
                    proof {
                        assert(false);
                    }
                    false
                },
            };
            proof {
                assert(payable == cost_payable_one(m_now, costs@[pj as int]));
            }
            if !payable {
                proof {
                    lemma_costs_payable_at_contra(init, costs@, pj as int);
                }
                return Err(GameError::CannotPayCost);
            }
            let ghost before = *self;
            let res = costs[pj].pay(self, player_id, Some(permanent_id));
            match res {
                Ok(_) => {},
                Err(_) => {
                    proof {
                        assert(false);
                    }
                },
            }
            proof {
                assert(costs@.take(pj as int + 1) =~= costs@.take(pj as int).push(
                    costs@[pj as int],
                ));
                lemma_costs_paid_push(init, costs@.take(pj as int), costs@[pj as int]);
                lemma_costs_payable_push(init, costs@.take(pj as int), costs@[pj as int]);
                lemma_pay_step_state(
                    pre,
                    before,
                    *self,
                    pi,
                    bi,
                    m_now,
                    costs@[pj as int],
                    player_id,
                    permanent_id,
                );
            }
            pj = pj + 1;
        }
        proof {
            assert(costs@.take(nc as int) =~= costs@);
        }
        Ok(())
    }
}

/// A failure at prefix point `k` refutes sequential payability.
pub proof fn lemma_costs_payable_at_contra(s: CostState, cs: Seq<Cost>, k: int)
    requires
        0 <= k < cs.len(),
        !cost_payable_one(costs_paid_seq(s, cs.take(k)), cs[k]),
    ensures
        !costs_payable_seq(s, cs),
{
    if costs_payable_seq(s, cs) {
        lemma_costs_payable_at(s, cs, k);
    }
}

/// One payment, against a state the earlier payments produced, moves the
/// exact paid state one cost forward.
proof fn lemma_pay_step_state(
    pre: Game,
    before: Game,
    after: Game,
    pi: int,
    bi: int,
    m: CostState,
    cost: Cost,
    player_id: PlayerId,
    permanent_id: ObjectId,
)
    requires
        pre.wf(),
        0 <= bi < pre.battlefield@.len(),
        pre.battlefield@[bi].id == permanent_id,
        pi == player_idx(pre.players@, player_id),
        m.has_player == (0 <= pi < pre.players@.len()),
        costs_paid_state(pre, before, pi, bi, m),
        first_idx_by_id(before.battlefield@, permanent_id) == bi,
        player_idx(before.players@, player_id) == pi,
        cost_payable_one(m, cost),
        match cost {
            Cost::Tap => {
                &&& crate::game::same_but_battlefield(before, after)
                &&& after.battlefield@ == before.battlefield@.update(
                    bi,
                    GameObj {
                        state: BattlefieldState {
                            tapped: true,
                            ..before.battlefield@[bi].state
                        },
                        ..before.battlefield@[bi]
                    },
                )
            },
            Cost::Mana(mc) => {
                &&& 0 <= pi < before.players@.len()
                &&& same_but_players(before, after)
                &&& after.players@ == before.players@.update(pi, after.players@[pi])
                &&& player_same_but_pool(before.players@[pi], after.players@[pi])
                &&& snapshot_of(after.players@[pi].mana_pool) == pay_mana_model(
                    snapshot_of(before.players@[pi].mana_pool),
                    mc,
                )
                &&& (forall|t: ManaType|
                    after.players@[pi].mana_pool.has_type(t) == before.players@[
                        pi
                    ].mana_pool.has_type(t))
                &&& after.players@[pi].mana_pool.wf()
            },
        },
    ensures
        costs_paid_state(pre, after, pi, bi, cost_pay_one(m, cost)),
        first_idx_by_id(after.battlefield@, permanent_id) == bi,
        player_idx(after.players@, player_id) == pi,
{
    crate::obj_lookup::lemma_first_idx_props(pre.battlefield@, permanent_id);
    crate::game::lemma_player_idx_props(pre.players@, player_id);
    match cost {
        Cost::Tap => {
            assert forall|k: int|
                0 <= k < pre.battlefield@.len() && k != bi implies after.battlefield@[k]
                == pre.battlefield@[k] by {
                assert(after.battlefield@[k] == before.battlefield@[k]);
            }
            assert forall|k: int|
                0 <= k < pre.players@.len() && k != pi implies after.players@[k]
                == pre.players@[k] by {
                assert(after.players@[k] == before.players@[k]);
            }
            assert forall|j: int| 0 <= j < bi implies (#[trigger] after.battlefield@[j]).id
                != permanent_id by {
                assert(after.battlefield@[j] == pre.battlefield@[j]);
            }
            crate::obj_lookup::lemma_first_idx_at(after.battlefield@, permanent_id, bi);
            assert(player_idx(after.players@, player_id) == pi) by {
                if pi >= 0 {
                    assert forall|j: int| 0 <= j < pi implies (#[trigger] after.players@[j]).id
                        != player_id by {
                        assert(after.players@[j] == pre.players@[j]);
                    }
                    crate::game::lemma_player_idx_at(after.players@, player_id, pi);
                } else {
                    assert forall|j: int|
                        0 <= j < after.players@.len() implies (#[trigger] after.players@[j]).id
                        != player_id by {
                        assert(after.players@[j] == pre.players@[j]);
                    }
                    crate::game::lemma_player_idx_props(after.players@, player_id);
                }
            }
        },
        Cost::Mana(_) => {
            assert forall|k: int|
                0 <= k < pre.battlefield@.len() && k != bi implies after.battlefield@[k]
                == pre.battlefield@[k] by {
                assert(after.battlefield@[k] == before.battlefield@[k]);
            }
            assert(after.battlefield@ == before.battlefield@);
            assert forall|k: int|
                0 <= k < pre.players@.len() && k != pi implies after.players@[k]
                == pre.players@[k] by {
                assert(after.players@[k] == before.players@[k]);
            }
            assert(player_idx(after.players@, player_id) == pi) by {
                assert forall|j: int| 0 <= j < pi implies (#[trigger] after.players@[j]).id
                    != player_id by {
                    assert(after.players@[j] == pre.players@[j]);
                }
                assert(after.players@[pi].id == pre.players@[pi].id);
                crate::game::lemma_player_idx_at(after.players@, player_id, pi);
            }
        },
    }
}

} // verus!
