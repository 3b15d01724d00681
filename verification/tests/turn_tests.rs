use mtgsim::cards::{create_basic_land, BasicLand};
use mtgsim::game::Game;
use mtgsim::player::Player;
use mtgsim::turns::{next_phase_type, Phase, PhaseType, StepType};

#[test]
fn test_phase_creation() {
    let phase = Phase::new(PhaseType::Beginning);

    assert_eq!(phase.phase_type, PhaseType::Beginning);
    assert!(!phase.is_completed);
    assert!(phase.current_step.is_some());

    // Beginning phase should start with Untap step
    assert_eq!(phase.current_step.unwrap().step_type, StepType::Untap);
}

#[test]
fn test_main_phase_has_no_steps() {
    let phase = Phase::new(PhaseType::Precombat);

    assert_eq!(phase.phase_type, PhaseType::Precombat);
    assert!(phase.current_step.is_none());
    assert!(!phase.has_steps());
}

#[test]
fn test_beginning_phase_progression() {
    let mut phase = Phase::new(PhaseType::Beginning);

    // Should start with Untap
    assert_eq!(phase.current_step.as_ref().unwrap().step_type, StepType::Untap);

    // Progress to Upkeep
    assert!(phase.next_step());
    assert_eq!(phase.current_step.as_ref().unwrap().step_type, StepType::Upkeep);

    // Progress to Draw
    assert!(phase.next_step());
    assert_eq!(phase.current_step.as_ref().unwrap().step_type, StepType::Draw);

    // No more steps
    assert!(!phase.next_step());
    assert!(phase.is_completed);
}

#[test]
fn test_combat_phase_progression() {
    let mut phase = Phase::new(PhaseType::Combat);

    // Should start with Beginning of Combat
    assert_eq!(phase.current_step.as_ref().unwrap().step_type, StepType::BeginCombat);

    // Progress through combat steps
    assert!(phase.next_step());
    assert_eq!(phase.current_step.as_ref().unwrap().step_type, StepType::DeclareAttackers);

    assert!(phase.next_step());
    assert_eq!(phase.current_step.as_ref().unwrap().step_type, StepType::DeclareBlockers);

    assert!(phase.next_step());
    assert_eq!(phase.current_step.as_ref().unwrap().step_type, StepType::FirstStrikeDamage);

    assert!(phase.next_step());
    assert_eq!(phase.current_step.as_ref().unwrap().step_type, StepType::CombatDamage);

    assert!(phase.next_step());
    assert_eq!(phase.current_step.as_ref().unwrap().step_type, StepType::EndCombat);

    // No more steps
    assert!(!phase.next_step());
    assert!(phase.is_completed);
}

#[test]
fn test_ending_phase_progression() {
    let mut phase = Phase::new(PhaseType::Ending);

    // Should start with End step
    assert_eq!(phase.current_step.as_ref().unwrap().step_type, StepType::End);

    // Progress to Cleanup
    assert!(phase.next_step());
    assert_eq!(phase.current_step.as_ref().unwrap().step_type, StepType::Cleanup);

    // No more steps
    assert!(!phase.next_step());
    assert!(phase.is_completed);
}

#[test]
fn test_current_step_name() {
    let phase = Phase::new(PhaseType::Beginning);
    assert_eq!(phase.current_step_name(), Some("Untap Step"));

    let main_phase = Phase::new(PhaseType::Precombat);
    assert_eq!(main_phase.current_step_name(), None);
}

#[test]
fn test_next_phase_type() {
    assert_eq!(next_phase_type(&PhaseType::Beginning), PhaseType::Precombat);
    assert_eq!(next_phase_type(&PhaseType::Precombat), PhaseType::Combat);
    assert_eq!(next_phase_type(&PhaseType::Combat), PhaseType::Postcombat);
    assert_eq!(next_phase_type(&PhaseType::Postcombat), PhaseType::Ending);
    assert_eq!(next_phase_type(&PhaseType::Ending), PhaseType::Beginning);
}

#[test]
fn test_game_creation() {
    let game = Game::new();

    assert_eq!(game.active_player_id, 0);
    assert_eq!(game.priority_player_id, 0);
    assert_eq!(game.turn_number, 1);
    assert_eq!(game.phase.phase_type, PhaseType::Beginning);
    assert!(game.players.is_empty());
    assert!(game.stack.is_empty());
    assert!(game.battlefield.is_empty());
}

#[test]
fn test_add_players() {
    let mut game = Game::new();

    let player1 = Player::new(0, 20, 7, 1);
    let player2 = Player::new(1, 20, 7, 1);

    game.players.push(player1);
    game.players.push(player2);

    assert_eq!(game.players.len(), 2);
    assert_eq!(game.players[0].id, 0);
    assert_eq!(game.players[1].id, 1);
}

#[test]
fn test_get_player_ref() {
    let mut game = Game::new();
    game.players.push(Player::new(0, 20, 7, 1));
    game.players.push(Player::new(1, 20, 7, 1));

    let player = game.get_player_ref(0);
    assert!(player.is_ok());
    assert_eq!(player.unwrap().id, 0);

    let invalid_player = game.get_player_ref(2);
    assert!(invalid_player.is_err());
}

#[test]
fn test_get_player_mut() {
    let mut game = Game::new();
    game.players.push(Player::new(0, 20, 7, 1));

    {
        let player = game.get_player_mut(0);
        player.life_total = 15;
    }

    assert_eq!(game.players[0].life_total, 15);
}

#[test]
fn test_advance_to_next_phase() {
    let mut game = Game::new();
    game.players.push(Player::new(0, 20, 7, 1));
    game.players.push(Player::new(1, 20, 7, 1));

    // Both players need a card in library to prevent deckout in draw phase
    for player in &mut game.players {
        let mut library = Vec::new();
        library.push(create_basic_land(BasicLand::Forest, player.id));
        player.set_library(library);
    }

    assert_eq!(game.phase.phase_type, PhaseType::Beginning);
    // 3 steps in Beginning phase: Untap, Upkeep, Draw
    for _ in 0..3 {
        game.advance_turn().unwrap();
    }
    assert_eq!(game.phase.phase_type, PhaseType::Precombat);
    // No steps in Precombat phase, so it should advance to Combat
    game.advance_turn().unwrap();
    assert_eq!(game.phase.phase_type, PhaseType::Combat);
    // 6 steps in Combat phase
    for _ in 0..6 {
        game.advance_turn().unwrap();
    }

    assert_eq!(game.phase.phase_type, PhaseType::Postcombat);
    // No steps in Postcombat phase, so it should advance to Ending
    game.advance_turn().unwrap();
    assert_eq!(game.phase.phase_type, PhaseType::Ending);
}

#[test]
fn test_turn_cycle() {
    let mut game = Game::new();
    game.players.push(Player::new(0, 20, 7, 1));
    game.players.push(Player::new(1, 20, 7, 1));

    // Both players need a card in library to prevent deckout in draw phase
    for player in &mut game.players {
        let mut library = Vec::new();
        library.push(create_basic_land(BasicLand::Forest, player.id));
        player.set_library(library);
    }

    // Complete a full turn cycle: 13 total steps
    for _ in 0..13 {
        game.advance_turn().unwrap();
    }

    // Should now be the second player's turn
    assert_eq!(game.turn_number, 2);
    assert_eq!(game.active_player_id, 1);
    assert_eq!(game.phase.phase_type, PhaseType::Beginning);

    // Do it again and ensure it cycles correctly
    for _ in 0..13 {
        game.advance_turn().unwrap();
    }

    // Should now be the first player's turn again
    assert_eq!(game.turn_number, 3);
    assert_eq!(game.active_player_id, 0);
    assert_eq!(game.phase.phase_type, PhaseType::Beginning);
}
