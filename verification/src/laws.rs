use vstd::prelude::*;
use crate::game::{Game, same_but_players_battlefield};
use crate::game_events::{
    sba_dead, sba_gy_gain_lethal, sba_gy_gain_phase, sba_gy_gain_zt, sba_rel, sba_survivors,
};
use crate::game_objects::BattlefieldState;
use crate::player::player_same_but_graveyard;

verus! {

/// Checking state-based actions is idempotent: after one batch has run,
/// a second batch run straight after it observably changes nothing — no
/// further creature leaves the battlefield and no graveyard grows. This
/// is what lets the engine re-check state-based actions at every point a
/// player would receive priority.
pub proof fn lemma_state_based_actions_idempotent(pre: Game, mid: Game, post: Game)
    requires
        sba_rel(pre, mid),
        sba_rel(mid, post),
    ensures
        same_but_players_battlefield(mid, post),
        post.battlefield@ == mid.battlefield@,
        post.players@.len() == mid.players@.len(),
        forall|p: int|
            0 <= p < mid.players@.len() ==> player_same_but_graveyard(
                mid.players@[p],
                #[trigger] post.players@[p],
            ) && post.players@[p].graveyard@ == mid.players@[p].graveyard@,
    {
    broadcast use vstd::seq_lib::group_filter_ensures;

    // The first batch removed every dead creature, so the second batch's
    // survivors are everyone, and its graveyard gains are empty.
    assert forall|i: int|
        0 <= i < mid.battlefield@.len() implies !sba_dead(#[trigger] mid.battlefield@[i]) by {
        let s = pre.battlefield@;
        let alive = crate::game_events::sba_alive_all_pred();
        assert(mid.battlefield@ == s.filter(alive));
        assert(s.filter(alive).contains(s.filter(alive)[i]));
        assert(alive(mid.battlefield@[i]));
    }
    lemma_filter_of_all_alive(mid.battlefield@);
    assert(post.battlefield@ =~= mid.battlefield@);
    assert forall|p: int|
        0 <= p < mid.players@.len() implies player_same_but_graveyard(
        mid.players@[p],
        #[trigger] post.players@[p],
    ) && post.players@[p].graveyard@ == mid.players@[p].graveyard@ by {
        lemma_no_dead_no_gain(mid.battlefield@, p);
        assert(post.players@[p].graveyard@ =~= mid.players@[p].graveyard@);
    }
}

/// A battlefield without dead creatures survives the batch untouched.
proof fn lemma_filter_of_all_alive(s: Seq<crate::game_objects::GameObj<BattlefieldState>>)
    requires
        forall|i: int| 0 <= i < s.len() ==> !sba_dead(#[trigger] s[i]),
    ensures
        sba_survivors(s) =~= s,
    decreases s.len(),
{
    reveal(Seq::filter);
    if s.len() > 0 {
        assert forall|i: int| 0 <= i < s.drop_last().len() implies !sba_dead(
            #[trigger] s.drop_last()[i],
        ) by {
            assert(s.drop_last()[i] == s[i]);
        }
        lemma_filter_of_all_alive(s.drop_last());
        assert(s.drop_last().push(s.last()) =~= s);
        assert(sba_survivors(s) =~= sba_survivors(s.drop_last()).push(s.last()));
    }
}

/// A battlefield without dead creatures yields no graveyard gains.
proof fn lemma_no_dead_no_gain(s: Seq<crate::game_objects::GameObj<BattlefieldState>>, p: int)
    requires
        forall|i: int| 0 <= i < s.len() ==> !sba_dead(#[trigger] s[i]),
    ensures
        sba_gy_gain_zt(s, p) =~= Seq::<
            crate::game_objects::GameObj<crate::game_objects::GraveyardState>,
        >::empty(),
        sba_gy_gain_lethal(s, p) =~= Seq::<
            crate::game_objects::GameObj<crate::game_objects::GraveyardState>,
        >::empty(),
    decreases s.len(),
{
    reveal(Seq::filter);
    if s.len() > 0 {
        assert forall|i: int| 0 <= i < s.drop_last().len() implies !sba_dead(
            #[trigger] s.drop_last()[i],
        ) by {
            assert(s.drop_last()[i] == s[i]);
        }
        lemma_no_dead_no_gain(s.drop_last(), p);
        assert(s.drop_last().push(s.last()) =~= s);
        assert(!sba_dead(s.last()));
    }
}

} // verus!
