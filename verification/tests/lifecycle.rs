use fifa_game::game::FifaGameContract;
use fifa_game::types::{ClubStats, GameError, MatchResult, MatchStatus};

fn even_stats() -> ClubStats {
    ClubStats { attack: 70, defense: 70, midfield: 70, goalkeeping: 70, speed: 70, overall: 70 }
}

#[test]
fn test_create_match() {
    let mut game = FifaGameContract::new();
    let player = 1u64;
    let club_id = 1u64;

    let match_id = game.create_match(player, club_id, player, 0, 1, 2, 0).unwrap_or_else(
        |_| panic!("create failed"),
    );
    assert_eq!(match_id, 1);

    let game_match = game.get_match(match_id).unwrap();
    assert_eq!(game_match.status, MatchStatus::Open);
    assert_eq!(game_match.challenger_club, club_id);
}

#[test]
fn test_accept_match() {
    let mut game = FifaGameContract::new();
    let player1 = 1u64;
    let player2 = 2u64;
    let club1_id = 1u64;
    let club2_id = 2u64;

    let match_id = game.create_match(player1, club1_id, player1, 0, 0, 0, 0).unwrap();

    let result = game
        .accept_match(player2, match_id, club2_id, player2, &even_stats(), &even_stats(), 3, 3, 3)
        .unwrap();

    assert_eq!(result.status, MatchStatus::Completed);
    // Defense beats UltraAttack, so player 2 wins every round.
    assert_eq!(result.rounds_won, (0, 3));
    assert_eq!(result.winner_club, club2_id);
}

#[test]
fn test_tactic_matchups() {
    let mut game = FifaGameContract::new();
    let player1 = 1u64;
    let player2 = 2u64;

    // UltraAttack against Balanced.
    let match_id = game.create_match(player1, 1, player1, 0, 0, 0, 0).unwrap();
    let result = game
        .accept_match(player2, match_id, 2, player2, &even_stats(), &even_stats(), 2, 2, 2)
        .unwrap();

    assert_eq!(result.status, MatchStatus::Completed);
    // UltraAttack beats Balanced with even stats.
    assert_eq!(result.winner_club, 1);
}

#[test]
fn test_get_open_matches() {
    let mut game = FifaGameContract::new();
    let player = 1u64;

    game.create_match(player, 1, player, 0, 1, 2, 0).unwrap();
    game.create_match(player, 1, player, 3, 4, 5, 0).unwrap();

    let open_matches = game.get_open_matches();
    assert_eq!(open_matches.len(), 2);
}

#[test]
fn test_cancel_match() {
    let mut game = FifaGameContract::new();
    let player = 1u64;

    let match_id = game.create_match(player, 1, player, 0, 1, 2, 0).unwrap();

    game.cancel_match(player, match_id).unwrap();

    let game_match = game.get_match(match_id).unwrap();
    assert_eq!(game_match.status, MatchStatus::Cancelled);

    let open_matches = game.get_open_matches();
    assert_eq!(open_matches.len(), 0);
}

#[test]
fn test_player_matches() {
    let mut game = FifaGameContract::new();
    let player1 = 1u64;
    let player2 = 2u64;

    let match_id = game.create_match(player1, 1, player1, 0, 1, 2, 0).unwrap();
    game.accept_match(player2, match_id, 2, player2, &even_stats(), &even_stats(), 3, 4, 5)
        .unwrap();

    let p1_matches = game.get_player_matches(player1);
    let p2_matches = game.get_player_matches(player2);

    assert_eq!(p1_matches.len(), 1);
    assert_eq!(p2_matches.len(), 1);
}

#[test]
fn test_new_match_fields() {
    let mut game = FifaGameContract::new();
    let match_id = game.create_match(7, 3, 7, 6, 5, 4, 0).unwrap();
    let m = game.get_match(match_id).unwrap();
    assert_eq!(m.id, 1);
    assert_eq!(m.challenger, 7);
    assert_eq!(m.challenger_club, 3);
    assert_eq!(m.challenger_tactics, (6, 5, 4));
    // Placeholders until acceptance.
    assert_eq!(m.opponent, 7);
    assert_eq!(m.opponent_club, 0);
    assert_eq!(m.opponent_tactics, (0, 0, 0));
    assert_eq!(m.status, MatchStatus::Open);
    assert_eq!(m.winner_club, 0);
    assert_eq!(m.rounds_won, (0, 0));
    assert_eq!(game.get_match_count(), 1);
}

#[test]
fn test_defense_sweeps_ultra_attack() {
    // Defense against UltraAttack is a +2 matchup; with identical stats the
    // modifier is 0, so the challenger takes all three rounds.
    let mut game = FifaGameContract::new();
    let match_id = game.create_match(1, 10, 1, 3, 3, 3, 0).unwrap();
    let result = game
        .accept_match(2, match_id, 20, 2, &even_stats(), &even_stats(), 0, 0, 0)
        .unwrap();
    assert_eq!(result.rounds_won, (3, 0));
    assert_eq!(result.winner_club, 10);
}

#[test]
fn test_invalid_tactic_rejected() {
    let mut game = FifaGameContract::new();
    let r = game.create_match(1, 1, 1, 7, 0, 0, 0);
    assert_eq!(r, Err(GameError::Validation));
    // No record was created.
    assert_eq!(game.get_match_count(), 0);
    assert_eq!(game.get_match(1), Err(GameError::NotFound));
    assert_eq!(game.get_open_matches().len(), 0);

    let match_id = game.create_match(1, 1, 1, 0, 0, 0, 0).unwrap();
    let r = game.accept_match(2, match_id, 2, 2, &even_stats(), &even_stats(), 0, 0, 7);
    assert_eq!(r, Err(GameError::Validation));
    assert_eq!(game.get_match(match_id).unwrap().status, MatchStatus::Open);
}

#[test]
fn test_create_requires_club_owner() {
    let mut game = FifaGameContract::new();
    // The registry says club 5 belongs to player 9, not to the challenger.
    let r = game.create_match(1, 5, 9, 0, 0, 0, 0);
    assert_eq!(r, Err(GameError::Authorization));
    assert_eq!(game.get_match_count(), 0);
}

#[test]
fn test_accept_requires_club_owner() {
    let mut game = FifaGameContract::new();
    let match_id = game.create_match(1, 1, 1, 0, 0, 0, 0).unwrap();
    let r = game.accept_match(2, match_id, 5, 9, &even_stats(), &even_stats(), 0, 0, 0);
    assert_eq!(r, Err(GameError::Authorization));
    assert_eq!(game.get_match(match_id).unwrap().status, MatchStatus::Open);
}

#[test]
fn test_self_play_rejected() {
    let mut game = FifaGameContract::new();
    let match_id = game.create_match(1, 1, 1, 0, 0, 0, 0).unwrap();
    let r = game.accept_match(1, match_id, 2, 1, &even_stats(), &even_stats(), 0, 0, 0);
    assert_eq!(r, Err(GameError::SelfPlay));
}

#[test]
fn test_accept_unknown_match() {
    let mut game = FifaGameContract::new();
    let r = game.accept_match(2, 1, 2, 2, &even_stats(), &even_stats(), 0, 0, 0);
    assert_eq!(r, Err(GameError::NotFound));
}

#[test]
fn test_second_accept_fails_with_state_error() {
    let mut game = FifaGameContract::new();
    let match_id = game.create_match(1, 1, 1, 0, 0, 0, 0).unwrap();
    game.accept_match(2, match_id, 2, 2, &even_stats(), &even_stats(), 3, 3, 3).unwrap();
    let again = game.accept_match(3, match_id, 3, 3, &even_stats(), &even_stats(), 1, 1, 1);
    assert_eq!(again, Err(GameError::State));
}

#[test]
fn test_cancel_after_accept_fails() {
    let mut game = FifaGameContract::new();
    let match_id = game.create_match(1, 1, 1, 0, 0, 0, 0).unwrap();
    game.accept_match(2, match_id, 2, 2, &even_stats(), &even_stats(), 3, 3, 3).unwrap();
    // The challenger can no longer cancel a completed match.
    assert_eq!(game.cancel_match(1, match_id), Err(GameError::State));
    // Anybody else is refused as not the challenger.
    assert_eq!(game.cancel_match(2, match_id), Err(GameError::Authorization));
}

#[test]
fn test_cancel_requires_challenger() {
    let mut game = FifaGameContract::new();
    let match_id = game.create_match(1, 1, 1, 0, 0, 0, 0).unwrap();
    assert_eq!(game.cancel_match(2, match_id), Err(GameError::Authorization));
    assert_eq!(game.get_match(match_id).unwrap().status, MatchStatus::Open);
}

#[test]
fn test_cancel_unknown_match() {
    let mut game = FifaGameContract::new();
    assert_eq!(game.cancel_match(1, 4), Err(GameError::NotFound));
}

#[test]
fn test_cancelled_match_leaves_open_index() {
    let mut game = FifaGameContract::new();
    let first = game.create_match(1, 1, 1, 0, 0, 0, 0).unwrap();
    let second = game.create_match(1, 1, 1, 1, 1, 1, 0).unwrap();
    game.cancel_match(1, first).unwrap();
    let open = game.get_open_matches();
    assert_eq!(open.len(), 1);
    assert!(!open.contains(&first));
    assert_eq!(open, vec![second]);
}

#[test]
fn test_winner_club_is_participant() {
    let mut game = FifaGameContract::new();
    for (t1, t2) in [(3u32, 0u32), (0, 3), (2, 2)] {
        let match_id = game.create_match(1, 10, 1, t1, t1, t1, 0).unwrap();
        let result = game
            .accept_match(2, match_id, 20, 2, &even_stats(), &even_stats(), t2, t2, t2)
            .unwrap();
        assert!(
            result.winner_club == 0 || result.winner_club == 10 || result.winner_club == 20
        );
    }
}

#[test]
fn test_rounds_won_sum_with_drawn_round() {
    let mut game = FifaGameContract::new();
    // One decisive round (Defense against UltraAttack), two mirrored Balanced
    // rounds that draw: the totals stay strictly under three.
    let match_id = game.create_match(1, 10, 1, 3, 2, 2, 0).unwrap();
    let result = game
        .accept_match(2, match_id, 20, 2, &even_stats(), &even_stats(), 0, 2, 2)
        .unwrap();
    assert_eq!(result.rounds_won, (1, 0));
    assert!(result.rounds_won.0 + result.rounds_won.1 < 3);
    assert_eq!(result.winner_club, 10);
}

#[test]
fn test_drawn_match_has_no_winner() {
    let mut game = FifaGameContract::new();
    // An even split of decisive rounds with one drawn round is a draw.
    let match_id = game.create_match(1, 10, 1, 3, 0, 2, 0).unwrap();
    let result = game
        .accept_match(2, match_id, 20, 2, &even_stats(), &even_stats(), 0, 3, 2)
        .unwrap();
    assert_eq!(result.rounds_won, (1, 1));
    assert_eq!(result.winner_club, 0);
}

#[test]
fn test_record_outcomes() {
    let mut game = FifaGameContract::new();

    let won = game.create_match(1, 10, 1, 3, 3, 3, 0).unwrap();
    let won_match = game
        .accept_match(2, won, 20, 2, &even_stats(), &even_stats(), 0, 0, 0)
        .unwrap();
    assert_eq!(
        FifaGameContract::record_outcomes(&won_match),
        (MatchResult::Win, MatchResult::Loss)
    );

    let lost = game.create_match(1, 10, 1, 0, 0, 0, 0).unwrap();
    let lost_match = game
        .accept_match(2, lost, 20, 2, &even_stats(), &even_stats(), 3, 3, 3)
        .unwrap();
    assert_eq!(
        FifaGameContract::record_outcomes(&lost_match),
        (MatchResult::Loss, MatchResult::Win)
    );

    let drawn = game.create_match(1, 10, 1, 2, 2, 2, 0).unwrap();
    let drawn_match = game
        .accept_match(2, drawn, 20, 2, &even_stats(), &even_stats(), 2, 2, 2)
        .unwrap();
    assert_eq!(
        FifaGameContract::record_outcomes(&drawn_match),
        (MatchResult::Draw, MatchResult::Draw)
    );
}

#[test]
fn test_player_history_append_order() {
    let mut game = FifaGameContract::new();
    let first = game.create_match(1, 1, 1, 0, 0, 0, 0).unwrap();
    let second = game.create_match(2, 2, 2, 0, 0, 0, 0).unwrap();
    // Player 1 accepts player 2's match after creating their own.
    game.accept_match(1, second, 1, 1, &even_stats(), &even_stats(), 3, 3, 3).unwrap();
    assert_eq!(game.get_player_matches(1), vec![first, second]);
    assert_eq!(game.get_player_matches(2), vec![second]);
    assert_eq!(game.get_player_matches(3), Vec::<u64>::new());
}

#[test]
fn test_check_valid() {
    let mut game = FifaGameContract::new();
    assert!(game.check_valid());
    let id = game.create_match(1, 1, 1, 0, 0, 0, 0).unwrap();
    game.accept_match(2, id, 2, 2, &even_stats(), &even_stats(), 3, 3, 3).unwrap();
    game.create_match(1, 1, 1, 1, 2, 3, 5).unwrap();
    assert!(game.check_valid());
    // A counter that disagrees with the table is rejected.
    game.match_count = 7;
    assert!(!game.check_valid());
}

#[test]
fn test_check_valid_rejects_bad_open_index() {
    let mut game = FifaGameContract::new();
    game.create_match(1, 1, 1, 0, 0, 0, 0).unwrap();
    // An id in the open index without a stored Open match is rejected.
    game.open_matches.push(9);
    assert!(!game.check_valid());
}
