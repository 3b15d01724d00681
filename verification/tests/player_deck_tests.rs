use mtgsim::cards::{create_basic_land, BasicLand};
use mtgsim::deck::{Deck, DeckFormat};
use mtgsim::mana::ManaType;
use mtgsim::player::Player;

#[test]
fn test_player_creation() {
    let player = Player::new(0, 20, 7, 1);

    assert_eq!(player.id, 0);
    assert_eq!(player.life_total, 20);
    assert_eq!(player.max_hand_size, 7);
    assert_eq!(player.max_lands_this_turn, 1);
    assert_eq!(player.lands_played_this_turn, 0);
    assert!(player.hand.is_empty());
    assert!(player.library.is_empty());
    assert!(player.graveyard.is_empty());
}

#[test]
fn test_set_library() {
    let mut player = Player::new(0, 20, 7, 1);
    let mut cards = Vec::new();

    // Create 5 test cards
    for _ in 0..5 {
        cards.push(create_basic_land(BasicLand::Forest, player.id));
    }

    player.set_library(cards.clone());
    assert_eq!(player.library.len(), 5);
}

#[test]
fn test_draw_card_success() {
    let mut player = Player::new(0, 20, 7, 1);
    let mut cards = Vec::new();

    // Create test deck
    for _ in 0..3 {
        cards.push(create_basic_land(BasicLand::Mountain, player.id));
    }

    player.set_library(cards);
    assert_eq!(player.library.len(), 3);
    assert_eq!(player.hand.len(), 0);

    // Draw a card
    let result = player.draw_card();
    assert!(result.is_ok());
    assert_eq!(player.library.len(), 2);
    assert_eq!(player.hand.len(), 1);
}

#[test]
fn test_draw_card_empty_library() {
    let mut player = Player::new(0, 20, 7, 1);

    // Try to draw from empty library
    let result = player.draw_card();
    assert!(result.is_err());
    assert_eq!(result.unwrap_err().message(), "Library is empty");
}

#[test]
fn test_draw_n_cards() {
    let mut player = Player::new(0, 20, 7, 1);
    let mut cards = Vec::new();

    // Create test deck with 10 cards
    for _ in 0..10 {
        cards.push(create_basic_land(BasicLand::Forest, player.id));
    }

    player.set_library(cards);

    // Draw 7 cards
    let result = player.draw_n_cards(7);
    assert!(result.is_ok());
    assert_eq!(player.library.len(), 3);
    assert_eq!(player.hand.len(), 7);
}

#[test]
fn test_draw_n_cards_not_enough() {
    let mut player = Player::new(0, 20, 7, 1);
    let mut cards = Vec::new();

    // Create test deck with only 3 cards
    for _ in 0..3 {
        cards.push(create_basic_land(BasicLand::Mountain, player.id));
    }

    player.set_library(cards);

    // Try to draw 5 cards
    let result = player.draw_n_cards(5);
    assert!(result.is_err());
    assert_eq!(player.hand.len(), 3); // Should have drawn 3 cards before failing
    assert_eq!(player.library.len(), 0);
}

#[test]
fn test_land_play_tracking() {
    let mut player = Player::new(0, 20, 7, 1);

    assert_eq!(player.lands_played_this_turn, 0);
    assert_eq!(player.max_lands_this_turn, 1);

    // Simulate playing a land
    player.lands_played_this_turn += 1;
    assert_eq!(player.lands_played_this_turn, 1);
}

#[test]
fn test_mana_pool_operations() {
    let mut player = Player::new(0, 20, 7, 1);

    // Test adding mana
    player.mana_pool.add_mana(ManaType::Red, 3);
    assert!(player.mana_pool.has_mana(ManaType::Red, 3));
    assert!(!player.mana_pool.has_mana(ManaType::Red, 4));

    // Test removing mana
    let result = player.mana_pool.remove_mana(ManaType::Red, 2);
    assert!(result.is_ok());
    assert!(player.mana_pool.has_mana(ManaType::Red, 1));
    assert!(!player.mana_pool.has_mana(ManaType::Red, 2));

    // Test removing too much mana
    let result = player.mana_pool.remove_mana(ManaType::Red, 2);
    assert!(result.is_err());

    // Test emptying mana pool
    player.mana_pool.empty();
    assert!(!player.mana_pool.has_mana(ManaType::Red, 1));
}

#[test]
fn test_deck_creation() {
    let deck = Deck::new(0, DeckFormat::Limited);

    assert_eq!(deck.owner, 0);
    assert_eq!(deck.deck_format, DeckFormat::Limited);
    assert!(deck.cards.is_empty());
    assert_eq!(deck.size(), 0);
}

#[test]
fn test_deck_validation_limited() {
    let mut deck = Deck::new(0, DeckFormat::Limited);

    // Limited requires minimum 40 cards
    assert!(!deck.is_valid()); // Empty deck is invalid

    // Add 39 cards - still invalid
    for _ in 0..39 {
        deck.put_card_on_bottom(create_basic_land(BasicLand::Forest, 0));
    }
    assert!(!deck.is_valid());

    // Add one more to reach 40 - now valid
    deck.put_card_on_bottom(create_basic_land(BasicLand::Forest, 0));
    assert!(deck.is_valid());
}

#[test]
fn test_put_card_on_bottom() {
    let mut deck = Deck::new(0, DeckFormat::Limited);

    let card1 = create_basic_land(BasicLand::Mountain, 0);
    let card1_id = card1.id.clone();
    deck.put_card_on_bottom(card1);

    assert_eq!(deck.size(), 1);
    assert_eq!(deck.cards[0].id, card1_id);

    let card2 = create_basic_land(BasicLand::Forest, 0);
    let card2_id = card2.id.clone();
    deck.put_card_on_bottom(card2);

    assert_eq!(deck.size(), 2);
    assert_eq!(deck.cards[1].id, card2_id); // Second card at bottom
}

#[test]
fn test_shuffle() {
    let mut deck = Deck::new(0, DeckFormat::Limited);

    // Create a deck with distinguishable cards
    for i in 0..40 {
        if i < 20 {
            deck.put_card_on_bottom(create_basic_land(BasicLand::Mountain, 0));
        } else {
            deck.put_card_on_bottom(create_basic_land(BasicLand::Forest, 0));
        }
    }

    // Check initial ordering - first 20 are Mountains
    let initial_first_card_type = deck.cards[0].characteristics.name.clone();

    // Shuffle multiple times to ensure randomization
    let mut shuffled_differently = false;
    for _ in 0..10 {
        deck.shuffle();
        if deck.cards[0].characteristics.name != initial_first_card_type {
            shuffled_differently = true;
            break;
        }
    }

    assert!(shuffled_differently, "Deck should be shuffled into different order");
    assert_eq!(deck.size(), 40); // Size unchanged
}

#[test]
fn test_create_test_deck() {
    let deck = Deck::create_test_deck(0);

    assert_eq!(deck.owner, 0);
    assert_eq!(deck.size(), 40); // 20 Mountains + 20 Forests
    assert!(deck.is_valid());

    // Count each land type
    let mut mountains = 0;
    let mut forests = 0;

    for card in &deck.cards {
        match card.characteristics.name.as_deref() {
            Some("Mountain") => mountains += 1,
            Some("Forest") => forests += 1,
            _ => panic!("Unexpected card in test deck"),
        }
    }

    assert_eq!(mountains, 20);
    assert_eq!(forests, 20);
}

#[test]
fn test_create_lightning_bolt_deck() {
    let deck = Deck::create_lightning_bolt_deck(0);

    assert_eq!(deck.owner, 0);
    assert_eq!(deck.size(), 40); // 20 Mountains + 20 Lightning Bolts
    assert!(deck.is_valid());

    // Count each card type
    let mut mountains = 0;
    let mut bolts = 0;

    for card in &deck.cards {
        match card.characteristics.name.as_deref() {
            Some("Mountain") => mountains += 1,
            Some("Lightning Bolt") => bolts += 1,
            _ => panic!("Unexpected card in lightning bolt deck"),
        }
    }

    assert_eq!(mountains, 20);
    assert_eq!(bolts, 20);
}
