//! The tactic-advantage matrix, the per-tactic stat selector, and the
//! single-round resolver.
//!
//! Tactics are numbered 0=UltraAttack, 1=Attack, 2=Balanced, 3=Defense,
//! 4=UltraDefense, 5=Counter, 6=Possession.

use vstd::prelude::*;
use crate::types::{ClubStats, stats_wf, MAX_STAT};

verus! {

/// Advantage of tactic `t1` over tactic `t2`, scaled to {-2, 0, 2}; 0 when
/// either value is outside [0, 6].  Row by row this is the matchup matrix
/// (row = `t1`, column = `t2`):
///
/// ```text
///           UA  ATK BAL DEF  UD CTR POS
/// UA         0   0   2  -2  -2   0   2
/// ATK        0   0   2   2  -2  -2   0
/// BAL       -2  -2   0   0   2   2  -2
/// DEF        2  -2   0   0   0  -2   2
/// UD         2   2  -2   0   0  -2   2
/// CTR        0   2  -2   2   2   0   0
/// POS       -2   0   2  -2  -2   0   0
/// ```
pub open spec fn advantage(t1: int, t2: int) -> int {
    if t1 < 0 || t1 > 6 || t2 < 0 || t2 > 6 {
        0
    } else if t1 == 0 {
        if t2 == 2 || t2 == 6 { 2 } else if t2 == 3 || t2 == 4 { -2 } else { 0 }
    } else if t1 == 1 {
        if t2 == 2 || t2 == 3 { 2 } else if t2 == 4 || t2 == 5 { -2 } else { 0 }
    } else if t1 == 2 {
        if t2 == 4 || t2 == 5 { 2 } else if t2 == 0 || t2 == 1 || t2 == 6 { -2 } else { 0 }
    } else if t1 == 3 {
        if t2 == 0 || t2 == 6 { 2 } else if t2 == 1 || t2 == 5 { -2 } else { 0 }
    } else if t1 == 4 {
        if t2 == 0 || t2 == 1 || t2 == 6 { 2 } else if t2 == 2 || t2 == 5 { -2 } else { 0 }
    } else if t1 == 5 {
        if t2 == 1 || t2 == 3 || t2 == 4 { 2 } else if t2 == 2 { -2 } else { 0 }
    } else {
        if t2 == 2 { 2 } else if t2 == 0 || t2 == 3 || t2 == 4 { -2 } else { 0 }
    }
}

/// The advantage matrix is zero-sum: what one tactic gains against another,
/// the other loses against it, and no tactic has an edge against itself.
/// Out-of-range arguments score 0 on both sides, so this holds of all values.
pub proof fn lemma_advantage_antisymmetric(t1: int, t2: int)
    ensures
        advantage(t1, t2) == -advantage(t2, t1),
        advantage(t1, t1) == 0,
{
}

/// Tactic matchup lookup: the advantage for `t1` against `t2`.
pub fn get_tactic_advantage(t1: u32, t2: u32) -> (r: i32)
    ensures
        r == advantage(t1 as int, t2 as int),
        r == -2 || r == 0 || r == 2,
{
    if t1 > 6 || t2 > 6 {
        0
    } else if t1 == 0 {
        if t2 == 2 || t2 == 6 { 2 } else if t2 == 3 || t2 == 4 { -2 } else { 0 }
    } else if t1 == 1 {
        if t2 == 2 || t2 == 3 { 2 } else if t2 == 4 || t2 == 5 { -2 } else { 0 }
    } else if t1 == 2 {
        if t2 == 4 || t2 == 5 { 2 } else if t2 == 0 || t2 == 1 || t2 == 6 { -2 } else { 0 }
    } else if t1 == 3 {
        if t2 == 0 || t2 == 6 { 2 } else if t2 == 1 || t2 == 5 { -2 } else { 0 }
    } else if t1 == 4 {
        if t2 == 0 || t2 == 1 || t2 == 6 { 2 } else if t2 == 2 || t2 == 5 { -2 } else { 0 }
    } else if t1 == 5 {
        if t2 == 1 || t2 == 3 || t2 == 4 { 2 } else if t2 == 2 { -2 } else { 0 }
    } else {
        if t2 == 2 { 2 } else if t2 == 0 || t2 == 3 || t2 == 4 { -2 } else { 0 }
    }
}

/// The stat value a tactic plays with: the mean (integer division) of the two
/// attributes the tactic relies on, or `overall` for an out-of-range tactic.
pub open spec fn stat_pair(s: ClubStats, t: int) -> int {
    if t == 0 {
        (s.attack + s.speed) / 2
    } else if t == 1 {
        (s.attack + s.midfield) / 2
    } else if t == 2 {
        (s.midfield + s.overall) / 2
    } else if t == 3 || t == 4 {
        (s.defense + s.goalkeeping) / 2
    } else if t == 5 {
        (s.speed + s.defense) / 2
    } else if t == 6 {
        (s.midfield + s.attack) / 2
    } else {
        s.overall as int
    }
}

/// Selects the stat value `tactic` plays with from a club's attributes.
pub fn get_tactic_stats(stats: &ClubStats, tactic: u32) -> (r: u32)
    requires
        stats_wf(*stats),
    ensures
        r == stat_pair(*stats, tactic as int),
        r <= MAX_STAT,
{
    match tactic {
        0 => (stats.attack + stats.speed) / 2,
        1 => (stats.attack + stats.midfield) / 2,
        2 => (stats.midfield + stats.overall) / 2,
        3 => (stats.defense + stats.goalkeeping) / 2,
        4 => (stats.defense + stats.goalkeeping) / 2,
        5 => (stats.speed + stats.defense) / 2,
        6 => (stats.midfield + stats.attack) / 2,
        _ => stats.overall,
    }
}

/// The stat differential's contribution to a round: the difference divided by
/// 10 (truncating toward zero, as on signed machine integers).
pub open spec fn trunc_div10(d: int) -> int {
    if d >= 0 {
        d / 10
    } else {
        -((-d) / 10)
    }
}

/// The stat modifier is capped at plus or minus 5.
pub open spec fn clamp_modifier(m: int) -> int {
    if m > 5 {
        5
    } else if m < -5 {
        -5
    } else {
        m
    }
}

/// A round's score for the first side: the tactic advantage plus the clamped
/// stat modifier.  Positive means the first side wins the round, negative the
/// second side, zero a drawn round.
pub open spec fn round_score(s1: ClubStats, t1: int, s2: ClubStats, t2: int) -> int {
    advantage(t1, t2) + clamp_modifier(trunc_div10(stat_pair(s1, t1) - stat_pair(s2, t2)))
}

/// Resolves one round between the first side (stats `stats1`, tactic `t1`) and
/// the second side.  Returns mutually exclusive flags (first side won, second
/// side won, drawn round).
pub fn calculate_round(stats1: &ClubStats, t1: u32, stats2: &ClubStats, t2: u32) -> (r: (
    bool,
    bool,
    bool,
))
    requires
        stats_wf(*stats1),
        stats_wf(*stats2),
    ensures
        r.0 == (round_score(*stats1, t1 as int, *stats2, t2 as int) > 0),
        r.1 == (round_score(*stats1, t1 as int, *stats2, t2 as int) < 0),
        r.2 == (round_score(*stats1, t1 as int, *stats2, t2 as int) == 0),
{
    let tactic_advantage = get_tactic_advantage(t1, t2);
    let p1_stat = get_tactic_stats(stats1, t1);
    let p2_stat = get_tactic_stats(stats2, t2);

    let stat_modifier: i32 = if p1_stat >= p2_stat {
        let d = (p1_stat - p2_stat) / 10;
        if d > 5 {
            5
        } else {
            d as i32
        }
    } else {
        let d = (p2_stat - p1_stat) / 10;
        if d > 5 {
            -5
        } else {
            -(d as i32)
        }
    };

    let final_score = tactic_advantage + stat_modifier;

    (final_score > 0, final_score < 0, final_score == 0)
}

/// How many of the three rounds the challenger side wins when its tactic
/// triple `ts1` meets the opponent's triple `ts2`, round for round.
pub open spec fn rounds_won_by_challenger(
    s1: ClubStats,
    ts1: (u32, u32, u32),
    s2: ClubStats,
    ts2: (u32, u32, u32),
) -> int {
    (if round_score(s1, ts1.0 as int, s2, ts2.0 as int) > 0 { 1int } else { 0int })
        + (if round_score(s1, ts1.1 as int, s2, ts2.1 as int) > 0 { 1int } else { 0int })
        + (if round_score(s1, ts1.2 as int, s2, ts2.2 as int) > 0 { 1int } else { 0int })
}

/// How many of the three rounds the opponent side wins.
pub open spec fn rounds_won_by_opponent(
    s1: ClubStats,
    ts1: (u32, u32, u32),
    s2: ClubStats,
    ts2: (u32, u32, u32),
) -> int {
    (if round_score(s1, ts1.0 as int, s2, ts2.0 as int) < 0 { 1int } else { 0int })
        + (if round_score(s1, ts1.1 as int, s2, ts2.1 as int) < 0 { 1int } else { 0int })
        + (if round_score(s1, ts1.2 as int, s2, ts2.2 as int) < 0 { 1int } else { 0int })
}

/// At least one of the three rounds ends in a draw.
pub open spec fn has_drawn_round(
    s1: ClubStats,
    ts1: (u32, u32, u32),
    s2: ClubStats,
    ts2: (u32, u32, u32),
) -> bool {
    round_score(s1, ts1.0 as int, s2, ts2.0 as int) == 0
        || round_score(s1, ts1.1 as int, s2, ts2.1 as int) == 0
        || round_score(s1, ts1.2 as int, s2, ts2.2 as int) == 0
}

/// Only three rounds are played, so at most three round wins are handed out in
/// total, and every drawn round lowers that total strictly below three.
pub proof fn lemma_rounds_won_bounds(
    s1: ClubStats,
    ts1: (u32, u32, u32),
    s2: ClubStats,
    ts2: (u32, u32, u32),
)
    ensures
        0 <= rounds_won_by_challenger(s1, ts1, s2, ts2) <= 3,
        0 <= rounds_won_by_opponent(s1, ts1, s2, ts2) <= 3,
        rounds_won_by_challenger(s1, ts1, s2, ts2) + rounds_won_by_opponent(s1, ts1, s2, ts2)
            <= 3,
        has_drawn_round(s1, ts1, s2, ts2) ==> rounds_won_by_challenger(s1, ts1, s2, ts2)
            + rounds_won_by_opponent(s1, ts1, s2, ts2) < 3,
{
}

/// Which club wins the match: the challenger's club on a majority of round
/// wins for the challenger, the opponent's club on a majority for the
/// opponent, and the sentinel 0 on an even split, however it arose.
pub open spec fn winner_of(challenger_club: u64, opponent_club: u64, p1: int, p2: int) -> u64 {
    if p1 > p2 {
        challenger_club
    } else if p2 > p1 {
        opponent_club
    } else {
        0
    }
}

} // verus!
