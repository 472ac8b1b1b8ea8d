//! Data model: club stats, tactics, match records, statuses and errors.

use vstd::prelude::*;

verus! {

/// Largest stat attribute the engine accepts.  Attributes are capped so that
/// the pairwise sums and the casts to signed 32-bit arithmetic used by the
/// round resolver cannot overflow.
pub const MAX_STAT: u32 = 0x7fff_ffff;

/// A club's six attributes, as reported by the club registry.  The registry
/// computes `overall` as the mean of the other five at club creation; the
/// engine treats it as an opaque input and never recomputes it.
#[derive(Clone, Copy, Debug, PartialEq, Eq, Structural)]
pub struct ClubStats {
    pub attack: u32,
    pub defense: u32,
    pub midfield: u32,
    pub goalkeeping: u32,
    pub speed: u32,
    pub overall: u32,
}

/// Outcome of a match for one club, propagated to the club registry's
/// win/loss/draw records.
#[derive(Clone, Copy, Debug, PartialEq, Eq, Structural)]
pub enum MatchResult {
    Win,
    Loss,
    Draw,
}

/// Lifecycle state of a match.  `Open` is the initial state; `Completed` and
/// `Cancelled` are terminal.
#[derive(Clone, Copy, Debug, PartialEq, Eq, Structural)]
pub enum MatchStatus {
    Open,
    Completed,
    Cancelled,
}

/// Why an operation was refused.  Every failure is terminal to the single
/// invoked operation and leaves the engine's state untouched.
#[derive(Clone, Copy, Debug, PartialEq, Eq, Structural)]
pub enum GameError {
    /// A tactic was outside the valid range.
    Validation,
    /// The caller is not the required identity or not the club's owner.
    Authorization,
    /// No match is stored under the given id.
    NotFound,
    /// The match is not in the state the operation needs.
    State,
    /// The opponent is the match's own challenger.
    SelfPlay,
}

/// A match record.  Before acceptance the opponent fields hold placeholder
/// values (the challenger's own identity, club 0, tactics (0,0,0)) and must
/// not be read as meaningful.
#[derive(Clone, Copy, Debug, PartialEq)]
pub struct TacticsMatch {
    pub id: u64,
    pub challenger: u64,
    pub challenger_club: u64,
    pub challenger_tactics: (u32, u32, u32),
    pub opponent: u64,
    pub opponent_club: u64,
    pub opponent_tactics: (u32, u32, u32),
    pub status: MatchStatus,
    /// 0 is the sentinel for "no winner / draw", never a valid club id.
    pub winner_club: u64,
    /// (challenger round wins, opponent round wins).
    pub rounds_won: (u32, u32),
    pub created_at: u64,
}

/// All six attributes are within the engine's cap.
pub open spec fn stats_wf(s: ClubStats) -> bool {
    s.attack <= MAX_STAT && s.defense <= MAX_STAT && s.midfield <= MAX_STAT
        && s.goalkeeping <= MAX_STAT && s.speed <= MAX_STAT && s.overall <= MAX_STAT
}

/// A tactic is an integer in the closed range [0, 6].
pub open spec fn valid_tactic(t: u32) -> bool {
    t <= 6
}

/// All three tactics of a triple are valid.
pub open spec fn tactics_valid(t: (u32, u32, u32)) -> bool {
    valid_tactic(t.0) && valid_tactic(t.1) && valid_tactic(t.2)
}

/// Well-formedness of a stored match record: the challenger's tactics are
/// valid, at most three round wins were handed out, the winner is the sentinel
/// 0 or one of the two participating clubs, and the fields agree with the
/// record's lifecycle state.
pub open spec fn match_wf(m: TacticsMatch) -> bool {
    &&& m.id >= 1
    &&& tactics_valid(m.challenger_tactics)
    &&& m.rounds_won.0 + m.rounds_won.1 <= 3
    &&& (m.winner_club == 0 || m.winner_club == m.challenger_club || m.winner_club
        == m.opponent_club)
    &&& (m.status == MatchStatus::Open ==> m.opponent == m.challenger && m.opponent_club == 0
        && m.opponent_tactics == (0u32, 0u32, 0u32) && m.winner_club == 0 && m.rounds_won == (
        0u32,
        0u32,
    ))
    &&& (m.status == MatchStatus::Completed ==> tactics_valid(m.opponent_tactics))
    &&& (m.status == MatchStatus::Cancelled ==> m.opponent == m.challenger && m.winner_club == 0
        && m.rounds_won == (0u32, 0u32))
}

/// Runtime check of `stats_wf`, for callers that receive stats from outside.
pub fn check_stats_wf(s: &ClubStats) -> (r: bool)
    ensures
        r == stats_wf(*s),
{
    s.attack <= MAX_STAT && s.defense <= MAX_STAT && s.midfield <= MAX_STAT && s.goalkeeping
        <= MAX_STAT && s.speed <= MAX_STAT && s.overall <= MAX_STAT
}

/// Runtime check of `match_wf`, for callers that store records outside the
/// engine and hand them back.
pub fn check_match_wf(m: &TacticsMatch) -> (r: bool)
    ensures
        r == match_wf(*m),
{
    m.id >= 1 && m.challenger_tactics.0 <= 6 && m.challenger_tactics.1 <= 6
        && m.challenger_tactics.2 <= 6 && (m.rounds_won.0 as u64) + (m.rounds_won.1 as u64) <= 3
        && (m.winner_club == 0 || m.winner_club == m.challenger_club || m.winner_club
        == m.opponent_club) && (match m.status {
        MatchStatus::Open => m.opponent == m.challenger && m.opponent_club == 0
            && m.opponent_tactics.0 == 0 && m.opponent_tactics.1 == 0 && m.opponent_tactics.2 == 0
            && m.winner_club == 0 && m.rounds_won.0 == 0 && m.rounds_won.1 == 0,
        MatchStatus::Completed => m.opponent_tactics.0 <= 6 && m.opponent_tactics.1 <= 6
            && m.opponent_tactics.2 <= 6,
        MatchStatus::Cancelled => m.opponent == m.challenger && m.winner_club == 0
            && m.rounds_won.0 == 0 && m.rounds_won.1 == 0,
    })
}

/// The record `create_match` stores: status Open, challenger fields populated,
/// opponent fields on their placeholders, no winner, no rounds scored.
pub open spec fn new_open_match(
    id: u64,
    challenger: u64,
    club_id: u64,
    t: (u32, u32, u32),
    now: u64,
) -> TacticsMatch {
    TacticsMatch {
        id,
        challenger,
        challenger_club: club_id,
        challenger_tactics: t,
        opponent: challenger,
        opponent_club: 0,
        opponent_tactics: (0u32, 0u32, 0u32),
        status: MatchStatus::Open,
        winner_club: 0,
        rounds_won: (0u32, 0u32),
        created_at: now,
    }
}

/// The record `accept_match` stores: the opponent's fields filled in, status
/// Completed, and the resolved winner and round wins.
pub open spec fn resolved_match(
    m: TacticsMatch,
    opponent: u64,
    club_id: u64,
    t: (u32, u32, u32),
    winner_club: u64,
    rounds_won: (u32, u32),
) -> TacticsMatch {
    TacticsMatch {
        opponent,
        opponent_club: club_id,
        opponent_tactics: t,
        status: MatchStatus::Completed,
        winner_club,
        rounds_won,
        ..m
    }
}

/// The record `cancel_match` stores: the same match, in state Cancelled.
pub open spec fn cancelled_match(m: TacticsMatch) -> TacticsMatch {
    TacticsMatch { status: MatchStatus::Cancelled, ..m }
}

} // verus!
