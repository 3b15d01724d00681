use vstd::prelude::*;
use crate::errors::GameError;
use crate::game_objects::{GameObj, GraveyardState, HandState, LibraryState};
use crate::ids::{ObjectId, PlayerId};
use crate::mana::ManaPool;
use crate::obj_lookup::{find_idx_by_id, first_idx_by_id, lemma_first_idx_props};
use crate::zone_transitions::spec_to_hand;

verus! {

/// A player: private zones, life total, mana pool, and the land-drop
/// counter for the current turn.
#[derive(Debug, Clone)]
pub struct Player {
    pub id: PlayerId,
    pub hand: Vec<GameObj<HandState>>,
    pub library: Vec<GameObj<LibraryState>>,
    pub graveyard: Vec<GameObj<GraveyardState>>,
    pub life_total: i64,
    pub max_hand_size: i32,
    pub mana_pool: ManaPool,
    pub max_lands_this_turn: u32,
    pub lands_played_this_turn: u32,
}

/// The hand a player holds after drawing the top `k` cards of `lib`:
/// the old hand followed by those cards, drawn from the back of the
/// library.
pub open spec fn spec_hand_after_draws(
    hand: Seq<GameObj<HandState>>,
    lib: Seq<GameObj<LibraryState>>,
    k: int,
) -> Seq<GameObj<HandState>> {
    hand + Seq::new(k as nat, |i: int| spec_to_hand(lib[lib.len() - 1 - i]))
}

/// `b` equals `a` in every field but the mana pool.
pub open spec fn player_same_but_pool(a: Player, b: Player) -> bool {
    b == (Player { mana_pool: b.mana_pool, ..a })
}

/// `b` equals `a` in every field but the graveyard.
pub open spec fn player_same_but_graveyard(a: Player, b: Player) -> bool {
    b == (Player { graveyard: b.graveyard, ..a })
}

/// `b` equals `a` in every field but the life total.
pub open spec fn player_same_but_life(a: Player, b: Player) -> bool {
    b == (Player { life_total: b.life_total, ..a })
}

impl Player {
    /// Well-formedness: a coherent mana pool, and every card in hand and
    /// library carrying power and toughness if it is a creature.
    pub open spec fn wf(self) -> bool {
        &&& self.mana_pool.wf()
        &&& forall|i: int|
            0 <= i < self.hand@.len() ==> (#[trigger] self.hand@[i]).creature_consistent()
        &&& forall|i: int|
            0 <= i < self.library@.len() ==> (#[trigger] self.library@[i]).creature_consistent()
    }

    /// Everything but the zones and the pool, unchanged between two states.
    pub open spec fn same_counters(self, other: Player) -> bool {
        &&& self.id == other.id
        &&& self.life_total == other.life_total
        &&& self.max_hand_size == other.max_hand_size
        &&& self.max_lands_this_turn == other.max_lands_this_turn
        &&& self.lands_played_this_turn == other.lands_played_this_turn
    }

    /// A fresh player with empty zones, an empty mana pool, and no lands
    /// played yet.
    pub fn new(
        id: PlayerId,
        starting_life: i64,
        max_hand_size: i32,
        default_lands_per_turn: u32,
    ) -> (r: Self)
        ensures
            r.wf(),
            r.id == id,
            r.hand@.len() == 0,
            r.library@.len() == 0,
            r.graveyard@.len() == 0,
            r.life_total == starting_life,
            r.max_hand_size == max_hand_size,
            r.mana_pool.spec_is_empty(),
            r.max_lands_this_turn == default_lands_per_turn,
            r.lands_played_this_turn == 0,
    {
        Player {
            id,
            hand: Vec::new(),
            library: Vec::new(),
            graveyard: Vec::new(),
            life_total: starting_life,
            max_hand_size,
            mana_pool: ManaPool::new(),
            max_lands_this_turn: default_lands_per_turn,
            lands_played_this_turn: 0,
        }
    }

    /// Install a prepared deck as this player's library.
    pub fn set_library(&mut self, cards: Vec<GameObj<LibraryState>>)
        requires
            old(self).wf(),
            forall|i: int| 0 <= i < cards@.len() ==> (#[trigger] cards@[i]).creature_consistent(),
        ensures
            final(self).wf(),
            final(self).library == cards,
            final(self).hand == old(self).hand,
            final(self).graveyard == old(self).graveyard,
            final(self).mana_pool == old(self).mana_pool,
            final(self).same_counters(*old(self)),
    {
        self.library = cards;
    }

    /// Draw the top card of the library into the hand.
    ///
    /// Fails, changing nothing, when the library is empty. (The
    /// losing-the-game consequence of drawing from an empty library is a
    /// documented gap and is not enforced.)
    pub fn draw_card(&mut self) -> (r: Result<(), GameError>)
        requires
            old(self).wf(),
        ensures
            final(self).wf(),
            old(self).library@.len() == 0 ==> r == Err::<(), GameError>(GameError::LibraryEmpty)
                && *final(self) == *old(self),
            old(self).library@.len() > 0 ==> {
                &&& r is Ok
                &&& final(self).library@ =~= old(self).library@.drop_last()
                &&& final(self).hand@ =~= old(self).hand@.push(
                    spec_to_hand(old(self).library@.last()),
                )
                &&& final(self).graveyard == old(self).graveyard
                &&& final(self).mana_pool == old(self).mana_pool
                &&& final(self).same_counters(*old(self))
            },
    {
        if self.library.is_empty() {
            return Err(GameError::LibraryEmpty);
        }
        let card = match self.library.pop() {
            Some(c) => c,
            None => {
                return Err(GameError::LibraryEmpty);
            },
        };
        let hand_card = card.to_hand();
        self.hand.push(hand_card);
        Ok(())
    }

    /// Draw `n` cards from the top of the library.
    ///
    /// With at least `n` cards present this moves exactly the top `n`
    /// cards, in order, into the hand. With fewer, it fails after drawing
    /// what it can: the library ends empty and the hand holds the cards
    /// drawn before the failure.
    pub fn draw_n_cards(&mut self, n: u64) -> (r: Result<(), GameError>)
        requires
            old(self).wf(),
        ensures
            final(self).wf(),
            n <= old(self).library@.len() ==> {
                &&& r is Ok
                &&& final(self).library@ =~= old(self).library@.take(
                    old(self).library@.len() - n,
                )
                &&& final(self).hand@ =~= spec_hand_after_draws(
                    old(self).hand@,
                    old(self).library@,
                    n as int,
                )
            },
            n > old(self).library@.len() ==> {
                &&& r == Err::<(), GameError>(GameError::LibraryEmpty)
                &&& final(self).library@.len() == 0
                &&& final(self).hand@ =~= spec_hand_after_draws(
                    old(self).hand@,
                    old(self).library@,
                    old(self).library@.len() as int,
                )
            },
            final(self).graveyard == old(self).graveyard,
            final(self).mana_pool == old(self).mana_pool,
            final(self).same_counters(*old(self)),
    {
        let ghost lib0 = old(self).library@;
        let ghost hand0 = old(self).hand@;
        let mut k: u64 = 0;
        while k < n
            invariant
                self.wf(),
                lib0 == old(self).library@,
                hand0 == old(self).hand@,
                k <= n,
                k <= lib0.len(),
                self.library@ =~= lib0.take(lib0.len() - k),
                self.hand@ =~= spec_hand_after_draws(hand0, lib0, k as int),
                self.graveyard == old(self).graveyard,
                self.mana_pool == old(self).mana_pool,
                self.same_counters(*old(self)),
            decreases n - k,
        {
            let ghost lib_before = self.library@;
            let ghost hand_before = self.hand@;
            match self.draw_card() {
                Ok(_) => {},
                Err(e) => {
                    proof {
                        assert(lib_before.len() == 0);
                        assert(lib0.len() - k as int == 0);
                    }
                    return Err(e);
                },
            }
            proof {
                assert(lib_before.len() > 0);
                assert(lib_before.last() == lib0[lib0.len() - 1 - k as int]);
                assert(self.library@ =~= lib0.take(lib0.len() - (k as int + 1)));
                assert(self.hand@ =~= spec_hand_after_draws(hand0, lib0, k as int + 1)) by {
                    assert(self.hand@ =~= hand_before.push(spec_to_hand(lib_before.last())));
                    assert(spec_hand_after_draws(hand0, lib0, k as int + 1) =~= spec_hand_after_draws(
                        hand0,
                        lib0,
                        k as int,
                    ).push(spec_to_hand(lib0[lib0.len() - 1 - k as int])));
                }
            }
            k = k + 1;
        }
        Ok(())
    }

    /// A reference to the card in hand with the given id, if present; the
    /// first matching card when ids collide.
    pub fn get_card_in_hand(&self, card_id: ObjectId) -> (r: Option<&GameObj<HandState>>)
        ensures
            match r {
                Some(card) => first_idx_by_id(self.hand@, card_id) >= 0 && *card == self.hand@[
                    first_idx_by_id(self.hand@, card_id)
                ],
                None => first_idx_by_id(self.hand@, card_id) == -1,
            },
    {
        match find_idx_by_id(&self.hand, card_id) {
            Some(i) => Some(&self.hand[i]),
            None => None,
        }
    }

    /// Remove and return the card in hand with the given id; the first
    /// matching card when ids collide. Fails, changing nothing, when no
    /// card in hand has the id.
    pub fn remove_card_from_hand(&mut self, card_id: ObjectId) -> (r: Result<
        GameObj<HandState>,
        GameError,
    >)
        requires
            old(self).wf(),
        ensures
            final(self).wf(),
            match r {
                Ok(card) => {
                    &&& first_idx_by_id(old(self).hand@, card_id) >= 0
                    &&& card == old(self).hand@[first_idx_by_id(old(self).hand@, card_id)]
                    &&& final(self).hand@ =~= old(self).hand@.remove(
                        first_idx_by_id(old(self).hand@, card_id),
                    )
                    &&& final(self).library == old(self).library
                    &&& final(self).graveyard == old(self).graveyard
                    &&& final(self).mana_pool == old(self).mana_pool
                    &&& final(self).same_counters(*old(self))
                },
                Err(e) => {
                    &&& first_idx_by_id(old(self).hand@, card_id) == -1
                    &&& e == GameError::CardNotFoundInHand
                    &&& *final(self) == *old(self)
                },
            },
    {
        match find_idx_by_id(&self.hand, card_id) {
            Some(i) => {
                let card = self.hand.remove(i);
                proof {
                    assert forall|j: int|
                        0 <= j < self.hand@.len() implies (
                    #[trigger] self.hand@[j]).creature_consistent() by {
                        if j < i {
                            assert(self.hand@[j] == old(self).hand@[j]);
                        } else {
                            assert(self.hand@[j] == old(self).hand@[j + 1]);
                        }
                    }
                }
                Ok(card)
            },
            None => Err(GameError::CardNotFoundInHand),
        }
    }

    /// Restore the land-drop counter to zero; invoked by the untap step.
    pub fn reset_lands_played(&mut self)
        ensures
            *final(self) == (Player { lands_played_this_turn: 0u32, ..*old(self) }),
    {
        self.lands_played_this_turn = 0;
    }

    /// Raise the number of lands this player may play this turn.
    pub fn increase_land_drop_limit(&mut self, amount: u32)
        requires
            old(self).max_lands_this_turn + amount <= u32::MAX,
        ensures
            *final(self) == (Player {
                max_lands_this_turn: (old(self).max_lands_this_turn + amount) as u32,
                ..*old(self)
            }),
    {
        self.max_lands_this_turn = self.max_lands_this_turn + amount;
    }
}

} // verus!
