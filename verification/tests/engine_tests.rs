use mtgsim::abilities::{AbilityDefinition, AbilityType, EffectDetails};
use mtgsim::cards::{create_basic_land, BasicLand, ObjectGenerator};
use mtgsim::costs::{Cost, ManaCost};
use mtgsim::errors::GameError;
use mtgsim::events::GameEvent;
use mtgsim::game::Game;
use mtgsim::ids::{ObjectId, PlayerId};
use mtgsim::mana::ManaType;
use mtgsim::player::Player;
use mtgsim::targeting::TargetRef;
use mtgsim::turns::PhaseType;

fn two_player_game() -> Game {
    let mut game = Game::new();
    game.players.push(Player::new(0, 20, 7, 1));
    game.players.push(Player::new(1, 20, 7, 1));
    game
}

fn give_libraries(game: &mut Game, n: usize) {
    for player in &mut game.players {
        let mut library = Vec::new();
        for _ in 0..n {
            library.push(create_basic_land(BasicLand::Mountain, player.id));
        }
        player.set_library(library);
    }
}

fn advance_to_phase(game: &mut Game, target: PhaseType) {
    while game.phase.phase_type != target {
        game.advance_turn().unwrap();
    }
}

fn hand_card_named(game: &Game, player_id: PlayerId, name: &str) -> Option<ObjectId> {
    game.players[player_id]
        .hand
        .iter()
        .find(|card| card.characteristics.name.as_deref() == Some(name))
        .map(|card| card.id)
}

#[test]
fn test_fresh_object_ids_differ() {
    let a = create_basic_land(BasicLand::Forest, 0);
    let b = create_basic_land(BasicLand::Forest, 0);
    assert_ne!(a.id, b.id);
}

#[test]
fn test_unknown_card_name_rejected() {
    let result = ObjectGenerator::create_card_in_library("Unknown Card", 0);
    assert!(result.is_err());
    assert_eq!(result.unwrap_err(), GameError::CardNotInRegistry);
}

#[test]
fn test_registry_builds_known_cards() {
    let bolt = ObjectGenerator::create_card_in_library("Lightning Bolt", 3).unwrap();
    assert_eq!(bolt.owner, 3);
    assert_eq!(bolt.characteristics.name.as_deref(), Some("Lightning Bolt"));
    let bears = ObjectGenerator::create_card_in_library("Grizzly Bears", 1).unwrap();
    assert_eq!(bears.characteristics.power, Some(2));
    assert_eq!(bears.characteristics.toughness, Some(2));
}

#[test]
fn test_land_drop_limit_and_reset() {
    let mut game = two_player_game();
    give_libraries(&mut game, 10);
    // Draw a few cards for the active player.
    game.get_player_mut(0).draw_n_cards(3).unwrap();
    advance_to_phase(&mut game, PhaseType::Precombat);
    assert_eq!(game.active_player_id, 0);
    assert_eq!(game.priority_player_id, 0);

    let land1 = hand_card_named(&game, 0, "Mountain").unwrap();
    game.play_land_from_hand(0, land1).unwrap();
    assert_eq!(game.players[0].lands_played_this_turn, 1);
    assert_eq!(game.battlefield.len(), 1);

    // The second land drop this turn must fail with an explicit error.
    let land2 = hand_card_named(&game, 0, "Mountain").unwrap();
    let result = game.play_land_from_hand(0, land2);
    assert_eq!(result.unwrap_err(), GameError::NoLandDropsRemaining);

    // The untap step restores the counter to 0.
    game.get_player_mut(0).reset_lands_played();
    assert_eq!(game.players[0].lands_played_this_turn, 0);
}

#[test]
fn test_play_land_preconditions() {
    let mut game = two_player_game();
    give_libraries(&mut game, 10);
    game.get_player_mut(1).draw_n_cards(2).unwrap();
    advance_to_phase(&mut game, PhaseType::Precombat);

    // Not that player's turn.
    let err = game.play_land_from_hand(1, 12345).unwrap_err();
    assert_eq!(err, GameError::NotYourTurn);

    // Card not in hand.
    let err = game.play_land_from_hand(0, 987654321).unwrap_err();
    assert_eq!(err, GameError::CardNotFoundInHand);

    // Wrong phase.
    game.advance_turn().unwrap();
    assert_eq!(game.phase.phase_type, PhaseType::Combat);
    let err = game.play_land_from_hand(0, 12345).unwrap_err();
    assert_eq!(err, GameError::NotMainPhase);
}

#[test]
fn test_pass_priority_advances_one_step() {
    let mut game = two_player_game();
    give_libraries(&mut game, 10);
    advance_to_phase(&mut game, PhaseType::Precombat);
    assert_eq!(game.priority_player_id, 0);

    // First pass just moves priority to the other player.
    let changed = game.pass_priority().unwrap();
    assert!(!changed);
    assert_eq!(game.priority_player_id, 1);

    // The second pass returns it to the active player with an empty
    // stack: the turn advances exactly one phase here.
    let changed = game.pass_priority().unwrap();
    assert!(changed);
    assert_eq!(game.phase.phase_type, PhaseType::Combat);
}

#[test]
fn test_mana_ability_taps_and_adds_mana() {
    let mut game = two_player_game();
    give_libraries(&mut game, 10);
    game.get_player_mut(0).draw_n_cards(2).unwrap();
    advance_to_phase(&mut game, PhaseType::Precombat);

    let land = hand_card_named(&game, 0, "Mountain").unwrap();
    game.play_land_from_hand(0, land).unwrap();
    assert!(!game.battlefield[0].state.tapped);

    // Tapping the untapped land adds exactly one red mana and taps it.
    game.handle_event(&GameEvent::ManaAbilityActivated { source_id: land, player_id: 0 })
        .unwrap();
    assert!(game.battlefield[0].state.tapped);
    assert!(game.players[0].mana_pool.has_mana(ManaType::Red, 1));
    assert!(!game.players[0].mana_pool.has_mana(ManaType::Red, 2));

    // A second activation fails: the land is already tapped.
    let err = game
        .handle_event(&GameEvent::ManaAbilityActivated { source_id: land, player_id: 0 })
        .unwrap_err();
    assert_eq!(err, GameError::CannotPayCost);
}

#[test]
fn test_mana_ability_needs_control() {
    let mut game = two_player_game();
    give_libraries(&mut game, 10);
    game.get_player_mut(0).draw_n_cards(2).unwrap();
    advance_to_phase(&mut game, PhaseType::Precombat);
    let land = hand_card_named(&game, 0, "Mountain").unwrap();
    game.play_land_from_hand(0, land).unwrap();

    let err = game
        .handle_event(&GameEvent::ManaAbilityActivated { source_id: land, player_id: 1 })
        .unwrap_err();
    assert_eq!(err, GameError::NotController);
}

#[test]
fn test_lethal_damage_moves_creature_to_graveyard_once() {
    let mut game = two_player_game();
    let bears = ObjectGenerator::create_card_in_library("Grizzly Bears", 0)
        .unwrap()
        .to_hand()
        .to_battlefield(0);
    let bear_id = bears.id;
    game.battlefield.push(bears);

    // Mark lethal damage (toughness 2) and run the state-based check.
    game.handle_event(&GameEvent::DamageDealt {
        source_id: 1,
        target_ref: TargetRef::permanent(bear_id),
        amount: 2,
    })
    .unwrap();
    game.handle_event(&GameEvent::CheckStateBasedActions).unwrap();

    assert_eq!(game.battlefield.len(), 0);
    assert_eq!(game.players[0].graveyard.len(), 1);
    assert_eq!(game.players[0].graveyard[0].id, bear_id);

    // Repeating the check after the move changes nothing.
    game.handle_event(&GameEvent::CheckStateBasedActions).unwrap();
    assert_eq!(game.battlefield.len(), 0);
    assert_eq!(game.players[0].graveyard.len(), 1);
}

#[test]
fn test_damage_to_missing_object_fails() {
    let mut game = two_player_game();
    let err = game
        .handle_event(&GameEvent::DamageDealt {
            source_id: 1,
            target_ref: TargetRef::permanent(424242),
            amount: 2,
        })
        .unwrap_err();
    assert_eq!(err, GameError::PermanentNotFound);
}

#[test]
fn test_unhandled_event_is_reported() {
    let mut game = two_player_game();
    let err = game
        .handle_event(&GameEvent::PermanentSacrificed { permanent_id: 7 })
        .unwrap_err();
    assert_eq!(err, GameError::UnhandledEvent);
}

#[test]
fn test_resolve_empty_stack_fails() {
    let mut game = two_player_game();
    let err = game.resolve_top_of_stack().unwrap_err();
    assert_eq!(err, GameError::StackEmpty);
}

#[test]
fn test_cast_land_is_rejected() {
    let mut game = two_player_game();
    give_libraries(&mut game, 10);
    game.get_player_mut(0).draw_n_cards(2).unwrap();
    advance_to_phase(&mut game, PhaseType::Precombat);
    let land = hand_card_named(&game, 0, "Mountain").unwrap();
    let err = game.cast_spell_from_hand(0, land, Vec::new()).unwrap_err();
    assert_eq!(err, GameError::LandsCannotBeCast);
}

#[test]
fn test_cast_needs_mana() {
    let mut game = two_player_game();
    give_libraries(&mut game, 5);
    let mut library = Vec::new();
    library.push(create_basic_land(BasicLand::Mountain, 0));
    library.push(ObjectGenerator::create_card_in_library("Lightning Bolt", 0).unwrap());
    game.get_player_mut(0).set_library(library);
    game.get_player_mut(0).draw_card().unwrap();
    advance_to_phase(&mut game, PhaseType::Precombat);

    let bolt = hand_card_named(&game, 0, "Lightning Bolt").unwrap();
    let targets = vec![TargetRef::player(1)];
    let err = game.cast_spell_from_hand(0, bolt, targets).unwrap_err();
    assert_eq!(err, GameError::NotEnoughManaToCast);
}

#[test]
fn test_cast_invalid_targets() {
    let mut game = two_player_game();
    give_libraries(&mut game, 5);
    let mut library = Vec::new();
    library.push(create_basic_land(BasicLand::Mountain, 0));
    library.push(ObjectGenerator::create_card_in_library("Lightning Bolt", 0).unwrap());
    game.get_player_mut(0).set_library(library);
    game.get_player_mut(0).draw_card().unwrap();
    game.get_player_mut(0).mana_pool.add_mana(ManaType::Red, 1);
    advance_to_phase(&mut game, PhaseType::Precombat);

    let bolt = hand_card_named(&game, 0, "Lightning Bolt").unwrap();
    // Lightning Bolt wants exactly one target.
    let err = game.cast_spell_from_hand(0, bolt, Vec::new()).unwrap_err();
    assert_eq!(err, GameError::InvalidTargets);
}

#[test]
fn test_generic_mana_paid_in_fixed_order() {
    let mut game = two_player_game();
    game.get_player_mut(0).mana_pool.add_mana(ManaType::White, 1);
    game.get_player_mut(0).mana_pool.add_mana(ManaType::Colorless, 1);

    // A purely generic cost of 1 consumes colorless before white.
    let cost = Cost::Mana(ManaCost::white(0, 1));
    assert_eq!(cost.can_pay(&game, 0, None), Ok(true));
    cost.pay(&mut game, 0, None).unwrap();

    assert!(game.players[0].mana_pool.has_mana(ManaType::White, 1));
    assert!(!game.players[0].mana_pool.has_mana(ManaType::Colorless, 1));
}

#[test]
fn test_shuffle_preserves_card_identities() {
    let mut deck = mtgsim::deck::Deck::new(0, mtgsim::deck::DeckFormat::Limited);
    for _ in 0..10 {
        deck.put_card_on_bottom(create_basic_land(BasicLand::Forest, 0));
    }
    let mut before: Vec<ObjectId> = deck.cards.iter().map(|c| c.id).collect();
    deck.shuffle();
    let mut after: Vec<ObjectId> = deck.cards.iter().map(|c| c.id).collect();
    before.sort();
    after.sort();
    assert_eq!(before, after);
}

#[test]
fn test_mountain_bolt_scenario() {
    // Two 40-card decks of 20 Mountains and 20 Lightning Bolts each.
    let mut game = two_player_game();
    for pid in 0..2usize {
        let mut library = Vec::new();
        for i in 0..40 {
            if i % 2 == 0 {
                library.push(create_basic_land(BasicLand::Mountain, pid));
            } else {
                library.push(ObjectGenerator::create_card_in_library("Lightning Bolt", pid).unwrap());
            }
        }
        game.get_player_mut(pid).set_library(library);
    }

    // Both players draw 7.
    game.get_player_mut(0).draw_n_cards(7).unwrap();
    game.get_player_mut(1).draw_n_cards(7).unwrap();
    assert_eq!(game.players[0].hand.len(), 7);

    advance_to_phase(&mut game, PhaseType::Precombat);
    assert_eq!(game.active_player_id, 0);

    // Play a Mountain and tap it for red mana.
    let mountain = hand_card_named(&game, 0, "Mountain").unwrap();
    game.play_land_from_hand(0, mountain).unwrap();
    game.handle_event(&GameEvent::ManaAbilityActivated { source_id: mountain, player_id: 0 })
        .unwrap();
    assert!(game.players[0].mana_pool.has_mana(ManaType::Red, 1));

    // Cast Lightning Bolt targeting the opponent.
    let bolt = hand_card_named(&game, 0, "Lightning Bolt").unwrap();
    let targets = vec![TargetRef::player(1)];
    game.cast_spell_from_hand(0, bolt, targets).unwrap();
    assert_eq!(game.stack.len(), 1);

    // Both players pass priority: the bolt resolves.
    let changed = game.pass_priority().unwrap();
    assert!(!changed);
    let changed = game.pass_priority().unwrap();
    assert!(changed);

    // The opponent's life drops from 20 to 17; the bolt is in its owner's
    // graveyard; the caster holds priority again.
    assert_eq!(game.players[1].life_total, 17);
    assert_eq!(game.stack.len(), 0);
    assert_eq!(game.players[0].graveyard.len(), 1);
    assert_eq!(
        game.players[0].graveyard[0].characteristics.name.as_deref(),
        Some("Lightning Bolt")
    );
    assert_eq!(game.priority_player_id, 0);

    // The mana pool empties at the end of the step.
    game.advance_turn().unwrap();
    assert_eq!(game.players[0].mana_pool.get_generic_mana(), 0);
}

#[test]
fn test_error_messages() {
    assert_eq!(GameError::LibraryEmpty.message(), "Library is empty");
    assert_eq!(
        GameError::NotEnoughManaOfType(ManaType::Black).message(),
        "Not enough Black mana in the pool"
    );
    assert_eq!(
        GameError::NoManaOfType(ManaType::Colorless).message(),
        "No Colorless mana in the pool"
    );
    assert_eq!(GameError::NotALand.message(), "Selected card is not a land");
}

#[test]
fn test_activated_ability_pays_tap_and_goes_on_stack() {
    let mut game = two_player_game();
    let mut bears = ObjectGenerator::create_card_in_library("Grizzly Bears", 0)
        .unwrap()
        .to_hand()
        .to_battlefield(0);
    let ability_id: ObjectId = 77;
    bears.characteristics.abilities = Some(vec![AbilityDefinition {
        id: ability_id,
        ability_type: AbilityType::Activated,
        costs: vec![Cost::Tap],
        effect_details: EffectDetails::DealDamage { amount: 1, target_requirement: None },
    }]);
    let bear_id = bears.id;
    game.battlefield.push(bears);

    // A payable tap cost: the activation succeeds, taps the permanent and
    // puts the ability on the stack.
    game.activate_ability_on_battlefield(0, bear_id, ability_id, "Deal 1".to_string(), vec![])
        .unwrap();
    assert!(game.battlefield[0].state.tapped);
    assert_eq!(game.stack.len(), 1);
    assert_eq!(game.stack[0].state.controller, 0);
    assert_eq!(game.stack[0].state.source_id, Some(bear_id));

    // The permanent is now tapped, so the same cost cannot be paid again.
    let err = game
        .activate_ability_on_battlefield(0, bear_id, ability_id, "Deal 1".to_string(), vec![])
        .unwrap_err();
    assert_eq!(err, GameError::CannotPayCost);
    assert_eq!(game.stack.len(), 1);
}

#[test]
fn test_nested_sequence_effects_processed_in_order() {
    let mut game = two_player_game();
    let source = ObjectGenerator::create_card_in_library("Grizzly Bears", 0)
        .unwrap()
        .to_hand()
        .to_battlefield(0);
    let source_id = source.id;
    game.battlefield.push(source);

    // A sequence holding a plain effect and a nested sequence: all the
    // damage lands, in order, on the targeted player.
    let effect = EffectDetails::Sequence(vec![
        EffectDetails::DealDamage { amount: 1, target_requirement: None },
        EffectDetails::Sequence(vec![
            EffectDetails::DealDamage { amount: 2, target_requirement: None },
            EffectDetails::Sequence(vec![EffectDetails::DealDamage {
                amount: 3,
                target_requirement: None,
            }]),
        ]),
    ]);
    let targets = vec![TargetRef::player(1)];
    game.process_effect(&effect, &targets, 0, Some(source_id)).unwrap();
    assert_eq!(game.players[1].life_total, 20 - 6);
}
