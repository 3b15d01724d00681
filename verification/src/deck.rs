use vstd::prelude::*;
use rand::seq::SliceRandom;
use crate::cards::{BasicLand, ObjectGenerator, create_basic_land, is_basic_land_card};
use crate::game_objects::{GameObj, LibraryState};
use crate::ids::PlayerId;

verus! {

/// The smallest legal constructed deck.
pub const MINIMUM_CONSTRUCTED_DECK_SIZE: usize = 60;

/// The smallest legal limited deck.
pub const MINIMUM_LIMITED_DECK_SIZE: usize = 40;

/// The exact size of a commander deck.
pub const COMMANDER_DECK_SIZE: usize = 100;

/// Deck formats, distinguished by their size limits.
#[derive(Debug, Clone, Copy, PartialEq, Eq, Structural)]
pub enum DeckFormat {
    Constructed,
    Limited,
    Commander,
}

impl DeckFormat {
    /// The fewest cards a legal deck of this format may hold.
    pub open spec fn spec_min_size(self) -> usize {
        match self {
            DeckFormat::Constructed => MINIMUM_CONSTRUCTED_DECK_SIZE,
            DeckFormat::Limited => MINIMUM_LIMITED_DECK_SIZE,
            DeckFormat::Commander => COMMANDER_DECK_SIZE,
        }
    }

    /// The most cards a legal deck of this format may hold, if bounded.
    pub open spec fn spec_max_size(self) -> Option<usize> {
        match self {
            DeckFormat::Commander => Some(COMMANDER_DECK_SIZE),
            _ => None,
        }
    }

    /// The fewest cards a legal deck of this format may hold.
    pub fn min_size(&self) -> (r: usize)
        ensures
            r == self.spec_min_size(),
    {
        match self {
            DeckFormat::Constructed => MINIMUM_CONSTRUCTED_DECK_SIZE,
            DeckFormat::Limited => MINIMUM_LIMITED_DECK_SIZE,
            DeckFormat::Commander => COMMANDER_DECK_SIZE,
        }
    }

    /// The most cards a legal deck of this format may hold, if bounded.
    /// Commander decks must be exactly commander-sized.
    pub fn max_size(&self) -> (r: Option<usize>)
        ensures
            r == self.spec_max_size(),
    {
        match self {
            DeckFormat::Commander => Some(COMMANDER_DECK_SIZE),
            _ => None,
        }
    }
}

/// An in-game deck: cards in library state, an owner, and a format that
/// fixes the size limits.
#[derive(Debug, Clone)]
pub struct Deck {
    pub cards: Vec<GameObj<LibraryState>>,
    pub owner: PlayerId,
    pub deck_format: DeckFormat,
}

/// Relies on rand's `SliceRandom::shuffle`: it permutes the slice in place
/// (a uniformly random permutation), so the cards afterward are the same
/// multiset, and in particular the same count, as before.
#[verifier::external_body]
fn shuffle_cards(cards: &mut Vec<GameObj<LibraryState>>)
    ensures
        final(cards)@.to_multiset() == old(cards)@.to_multiset(),
        final(cards)@.len() == old(cards)@.len(),
{
    cards.as_mut_slice().shuffle(&mut rand::rng());
}

impl Deck {
    /// Whether the deck meets its format's size limits.
    pub open spec fn spec_is_valid(self) -> bool {
        &&& self.cards@.len() >= self.deck_format.spec_min_size()
        &&& match self.deck_format.spec_max_size() {
            Some(size) => self.cards@.len() <= size,
            None => true,
        }
    }

    /// A new empty deck of the given format.
    pub fn new(owner: PlayerId, deck_format: DeckFormat) -> (r: Self)
        ensures
            r.cards@.len() == 0,
            r.owner == owner,
            r.deck_format == deck_format,
    {
        Deck { cards: Vec::new(), owner, deck_format }
    }

    /// Whether the deck is within its format's size requirements.
    pub fn is_valid(&self) -> (r: bool)
        ensures
            r == self.spec_is_valid(),
    {
        let len = self.cards.len();
        let above_min = len >= self.deck_format.min_size();
        let below_max = match self.deck_format.max_size() {
            Some(size) => len <= size,
            None => true,
        };
        above_min && below_max
    }

    /// Shuffle the deck in place.
    ///
    /// The cards afterward are exactly the cards before, as a multiset:
    /// same count, nothing duplicated, nothing lost.
    pub fn shuffle(&mut self)
        ensures
            final(self).cards@.to_multiset() == old(self).cards@.to_multiset(),
            final(self).cards@.len() == old(self).cards@.len(),
            final(self).owner == old(self).owner,
            final(self).deck_format == old(self).deck_format,
    {
        shuffle_cards(&mut self.cards);
    }

    /// The number of cards in the deck.
    pub fn size(&self) -> (r: usize)
        ensures
            r == self.cards@.len(),
    {
        self.cards.len()
    }

    /// Put a prepared library-state card on the bottom of the deck.
    pub fn put_card_on_bottom(&mut self, card: GameObj<LibraryState>)
        ensures
            final(self).cards@ == old(self).cards@.push(card),
            final(self).owner == old(self).owner,
            final(self).deck_format == old(self).deck_format,
    {
        self.cards.push(card);
    }

    /// A 40-card limited test deck: 20 Forests and 20 Mountains, shuffled.
    pub fn create_test_deck(owner: PlayerId) -> (r: Self)
        ensures
            r.owner == owner,
            r.deck_format == DeckFormat::Limited,
            r.cards@.len() == 40,
            forall|i: int|
                0 <= i < r.cards@.len() ==> is_basic_land_card(
                    #[trigger] r.cards@[i],
                    BasicLand::Forest,
                    owner,
                ) || is_basic_land_card(r.cards@[i], BasicLand::Mountain, owner),
    {
        let mut deck = Deck::new(owner, DeckFormat::Limited);
        let mut round: usize = 0;
        while round < 20
            invariant
                deck.owner == owner,
                deck.deck_format == DeckFormat::Limited,
                round <= 20,
                deck.cards@.len() == 2 * round,
                forall|i: int|
                    0 <= i < deck.cards@.len() ==> is_basic_land_card(
                        #[trigger] deck.cards@[i],
                        BasicLand::Forest,
                        owner,
                    ) || is_basic_land_card(deck.cards@[i], BasicLand::Mountain, owner),
            decreases 20 - round,
        {
            deck.put_card_on_bottom(create_basic_land(BasicLand::Forest, owner));
            deck.put_card_on_bottom(create_basic_land(BasicLand::Mountain, owner));
            round = round + 1;
        }
        proof {
            lemma_multiset_membership(deck.cards@);
        }
        let ghost before = deck.cards@;
        deck.shuffle();
        proof {
            lemma_multiset_membership(deck.cards@);
            assert forall|i: int|
                0 <= i < deck.cards@.len() implies is_basic_land_card(
                #[trigger] deck.cards@[i],
                BasicLand::Forest,
                owner,
            ) || is_basic_land_card(deck.cards@[i], BasicLand::Mountain, owner) by {
                assert(deck.cards@.to_multiset().contains(deck.cards@[i]));
                assert(before.to_multiset().contains(deck.cards@[i]));
                let j = choose|j: int| 0 <= j < before.len() && before[j] == deck.cards@[i];
                assert(is_basic_land_card(before[j], BasicLand::Forest, owner)
                    || is_basic_land_card(before[j], BasicLand::Mountain, owner));
            }
        }
        deck
    }

    /// A 40-card limited deck of 20 Mountains and 20 Lightning Bolts,
    /// shuffled.
    pub fn create_lightning_bolt_deck(owner: PlayerId) -> (r: Self)
        ensures
            r.owner == owner,
            r.deck_format == DeckFormat::Limited,
            r.cards@.len() == 40,
            forall|i: int|
                0 <= i < r.cards@.len() ==> is_basic_land_card(
                    #[trigger] r.cards@[i],
                    BasicLand::Mountain,
                    owner,
                ) || (r.cards@[i].owner == owner
                    && crate::cards::is_lightning_bolt_chars(r.cards@[i].characteristics)),
    {
        let mut deck = Deck::new(owner, DeckFormat::Limited);
        let mut round: usize = 0;
        while round < 20
            invariant
                deck.owner == owner,
                deck.deck_format == DeckFormat::Limited,
                round <= 20,
                deck.cards@.len() == 2 * round,
                forall|i: int|
                    0 <= i < deck.cards@.len() ==> is_basic_land_card(
                        #[trigger] deck.cards@[i],
                        BasicLand::Mountain,
                        owner,
                    ) || (deck.cards@[i].owner == owner
                        && crate::cards::is_lightning_bolt_chars(deck.cards@[i].characteristics)),
            decreases 20 - round,
        {
            deck.put_card_on_bottom(create_basic_land(BasicLand::Mountain, owner));
            let card = match ObjectGenerator::create_card_in_library("Lightning Bolt", owner) {
                Ok(card) => card,
                // The registry provably knows this name.
                Err(_) => vstd::pervasive::unreached(),
            };
            proof {
                // The two registered names differ, so the card is the bolt.
                reveal_strlit("Lightning Bolt");
                reveal_strlit("Grizzly Bears");
                assert("Lightning Bolt"@ != "Grizzly Bears"@) by {
                    assert("Lightning Bolt"@.len() == 14);
                    assert("Grizzly Bears"@.len() == 13);
                }
            }
            let ghost bolt_card = card;
            let ghost before_push = deck.cards@;
            deck.put_card_on_bottom(card);
            proof {
                assert(crate::cards::is_lightning_bolt_chars(bolt_card.characteristics));
                assert forall|i: int|
                    0 <= i < deck.cards@.len() implies is_basic_land_card(
                    #[trigger] deck.cards@[i],
                    BasicLand::Mountain,
                    owner,
                ) || (deck.cards@[i].owner == owner && crate::cards::is_lightning_bolt_chars(
                    deck.cards@[i].characteristics,
                )) by {
                    if i < deck.cards@.len() - 1 {
                        assert(deck.cards@[i] == before_push[i]);
                    } else {
                        assert(deck.cards@[i] == bolt_card);
                    }
                }
            }
            round = round + 1;
        }
        let ghost before = deck.cards@;
        deck.shuffle();
        proof {
            lemma_multiset_membership(deck.cards@);
            lemma_multiset_membership(before);
            assert forall|i: int|
                0 <= i < deck.cards@.len() implies is_basic_land_card(
                #[trigger] deck.cards@[i],
                BasicLand::Mountain,
                owner,
            ) || (deck.cards@[i].owner == owner && crate::cards::is_lightning_bolt_chars(
                deck.cards@[i].characteristics,
            )) by {
                assert(deck.cards@.to_multiset().contains(deck.cards@[i]));
                assert(before.to_multiset().contains(deck.cards@[i]));
                let j = choose|j: int| 0 <= j < before.len() && before[j] == deck.cards@[i];
            }
        }
        deck
    }
}

/// Each element of a sequence is a member of its multiset, and each member
/// of the multiset occurs in the sequence.
proof fn lemma_multiset_membership(s: Seq<GameObj<LibraryState>>)
    ensures
        forall|i: int| 0 <= i < s.len() ==> s.to_multiset().contains(#[trigger] s[i]),
        forall|x: GameObj<LibraryState>|
            s.to_multiset().contains(x) ==> exists|j: int| 0 <= j < s.len() && s[j] == x,
{
    broadcast use vstd::seq_lib::group_seq_properties;

    assert forall|x: GameObj<LibraryState>| s.to_multiset().contains(x) implies exists|j: int|
        0 <= j < s.len() && s[j] == x by {
        s.to_multiset_ensures();
        assert(s.contains(x));
    }
    assert forall|i: int| 0 <= i < s.len() implies s.to_multiset().contains(#[trigger] s[i]) by {
        s.to_multiset_ensures();
        assert(s.contains(s[i]));
    }
}

} // verus!
