use fifa_game::tactics::{calculate_round, get_tactic_advantage, get_tactic_stats};
use fifa_game::types::ClubStats;

fn stats(attack: u32, defense: u32, midfield: u32, goalkeeping: u32, speed: u32) -> ClubStats {
    let overall = (attack + defense + midfield + goalkeeping + speed) / 5;
    ClubStats { attack, defense, midfield, goalkeeping, speed, overall }
}

#[test]
fn test_advantage_matrix_values() {
    let expected: [[i32; 7]; 7] = [
        [0, 0, 2, -2, -2, 0, 2],
        [0, 0, 2, 2, -2, -2, 0],
        [-2, -2, 0, 0, 2, 2, -2],
        [2, -2, 0, 0, 0, -2, 2],
        [2, 2, -2, 0, 0, -2, 2],
        [0, 2, -2, 2, 2, 0, 0],
        [-2, 0, 2, -2, -2, 0, 0],
    ];
    for t1 in 0..7u32 {
        for t2 in 0..7u32 {
            assert_eq!(get_tactic_advantage(t1, t2), expected[t1 as usize][t2 as usize]);
        }
    }
}

#[test]
fn test_advantage_antisymmetry() {
    for t1 in 0..7u32 {
        assert_eq!(get_tactic_advantage(t1, t1), 0);
        for t2 in 0..7u32 {
            assert_eq!(get_tactic_advantage(t1, t2), -get_tactic_advantage(t2, t1));
        }
    }
}

#[test]
fn test_advantage_out_of_range() {
    assert_eq!(get_tactic_advantage(7, 0), 0);
    assert_eq!(get_tactic_advantage(0, 7), 0);
    assert_eq!(get_tactic_advantage(99, 99), 0);
}

#[test]
fn test_tactic_stats_selection() {
    let s = stats(80, 60, 70, 50, 90);
    assert_eq!(s.overall, 70);
    assert_eq!(get_tactic_stats(&s, 0), 85); // (attack + speed) / 2
    assert_eq!(get_tactic_stats(&s, 1), 75); // (attack + midfield) / 2
    assert_eq!(get_tactic_stats(&s, 2), 70); // (midfield + overall) / 2
    assert_eq!(get_tactic_stats(&s, 3), 55); // (defense + goalkeeping) / 2
    assert_eq!(get_tactic_stats(&s, 4), 55); // (defense + goalkeeping) / 2
    assert_eq!(get_tactic_stats(&s, 5), 75); // (speed + defense) / 2
    assert_eq!(get_tactic_stats(&s, 6), 75); // (midfield + attack) / 2
    assert_eq!(get_tactic_stats(&s, 7), 70); // fallback: overall
}

#[test]
fn test_round_draw_on_even_ground() {
    let s = stats(70, 70, 70, 70, 70);
    assert_eq!(calculate_round(&s, 2, &s, 2), (false, false, true));
}

#[test]
fn test_round_advantage_decides() {
    // Defense against UltraAttack with identical stats: +2, first side wins.
    let s = stats(70, 70, 70, 70, 70);
    assert_eq!(calculate_round(&s, 3, &s, 0), (true, false, false));
    assert_eq!(calculate_round(&s, 0, &s, 3), (false, true, false));
}

#[test]
fn test_round_stats_decide() {
    // Mirrored Balanced tactics: no advantage, the stat differential decides.
    // Pairs are (90 + 74) / 2 = 82 against (70 + 70) / 2 = 70: modifier +1.
    let strong = stats(70, 70, 90, 70, 70);
    let weak = stats(70, 70, 70, 70, 70);
    assert_eq!(calculate_round(&strong, 2, &weak, 2), (true, false, false));
    // A differential under 10 is no modifier at all: (79 + 71) / 2 = 75.
    let slight = stats(70, 70, 79, 70, 67);
    assert_eq!(slight.overall, 71);
    assert_eq!(calculate_round(&slight, 2, &weak, 2), (false, false, true));
}

#[test]
fn test_round_division_truncates_toward_zero() {
    // Defense (+2) with a stat pair 15 below the opponent's: -15 / 10
    // truncates to -1, so the round still goes to the first side.
    let defender = stats(70, 55, 70, 55, 70);
    let attacker = stats(70, 70, 70, 70, 70);
    assert_eq!(calculate_round(&defender, 3, &attacker, 0), (true, false, false));
    // 25 below: -2, cancelling the advantage into a drawn round.
    let weaker = stats(70, 45, 70, 45, 70);
    assert_eq!(calculate_round(&weaker, 3, &attacker, 0), (false, false, true));
}

#[test]
fn test_round_modifier_outweighs_advantage() {
    // Balanced against UltraAttack is a -2 matchup, but a stat differential of
    // 40 (modifier +4, within the cap of 5) turns the round around.
    let strong = stats(70, 70, 130, 110, 70);
    let weak = stats(70, 70, 70, 70, 70);
    assert_eq!(get_tactic_stats(&strong, 2), 110);
    assert_eq!(calculate_round(&strong, 2, &weak, 0), (true, false, false));
}

#[test]
fn test_check_stats_bounds() {
    assert!(fifa_game::types::check_stats_wf(&stats(70, 70, 70, 70, 70)));
    let bad = ClubStats {
        attack: u32::MAX,
        defense: 70,
        midfield: 70,
        goalkeeping: 70,
        speed: 70,
        overall: 70,
    };
    assert!(!fifa_game::types::check_stats_wf(&bad));
}
