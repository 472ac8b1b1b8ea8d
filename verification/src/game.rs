//! The match lifecycle: creating, accepting and cancelling matches, the
//! queries over the stored state, and the laws the lifecycle obeys.
//!
//! The engine owns all of this state.  What only the club registry knows —
//! who owns a club, a club's stats — is handed in as plain values by the
//! caller, which queries the registry; what the registry must be told (the
//! win/loss/draw outcome of an accepted match) is handed back the same way.

use vstd::prelude::*;
use crate::history::{
    PlayerHistory, append_history, check_unique_players, copy_ids, has_player, history_of,
    lemma_history_absent, lemma_history_found, player_history, unique_players,
};
use crate::open_index::{
    check_no_duplicates, contains_id, lemma_without_len, lemma_without_membership,
    lemma_without_no_duplicates, remove_id, seq_without,
};
use crate::tactics::{
    calculate_round, has_drawn_round, lemma_rounds_won_bounds, rounds_won_by_challenger,
    rounds_won_by_opponent, winner_of,
};
use crate::types::{
    ClubStats, GameError, MatchResult, MatchStatus, TacticsMatch, cancelled_match, check_match_wf,
    match_wf, new_open_match, resolved_match, stats_wf, tactics_valid,
};

verus! {

/// The engine's persisted state: the match-id counter, the table of matches
/// (the match with id `i` sits at position `i - 1`; ids start at 1, records
/// are never deleted), the open-match index, and the per-player history.
pub struct FifaGameContract {
    pub match_count: u64,
    pub matches: Vec<TacticsMatch>,
    pub open_matches: Vec<u64>,
    pub player_index: Vec<PlayerHistory>,
}

impl FifaGameContract {
    /// A match with this id is stored.
    pub open spec fn has_match(self, id: u64) -> bool {
        1 <= id && id <= self.matches@.len()
    }

    /// The stored match with id `id` (meaningful only when `has_match`).
    pub open spec fn match_at(self, id: u64) -> TacticsMatch {
        self.matches@[id - 1]
    }

    /// The history recorded for a player, in append order.
    pub open spec fn history(self, player: u64) -> Seq<u64> {
        history_of(self.player_index@, player)
    }

    /// The match table is densely id-keyed, counts match the counter, and
    /// every record is well formed.
    pub open spec fn matches_wf(self) -> bool {
        &&& self.matches@.len() == self.match_count
        &&& forall|i: int|
            0 <= i < self.matches@.len() ==> (#[trigger] self.matches@[i]).id == i + 1
        &&& forall|i: int| 0 <= i < self.matches@.len() ==> match_wf(#[trigger] self.matches@[i])
    }

    /// The open-match index lists exactly the ids of the matches in state
    /// Open, each once.
    pub open spec fn open_index_wf(self) -> bool {
        &&& self.open_matches@.no_duplicates()
        &&& forall|j: int|
            0 <= j < self.open_matches@.len() ==> self.has_match(#[trigger] self.open_matches@[j])
                && self.match_at(self.open_matches@[j]).status == MatchStatus::Open
        &&& forall|i: int|
            0 <= i < self.matches@.len() && (#[trigger] self.matches@[i]).status
                == MatchStatus::Open ==> self.open_matches@.contains(self.matches@[i].id)
    }

    /// Every id a player's history records names a stored match that the
    /// player took part in.
    pub open spec fn histories_participants_ok(self) -> bool {
        forall|q: u64, k: int|
            0 <= k < self.history(q).len() ==> self.has_match(#[trigger] self.history(q)[k]) && (
            self.match_at(self.history(q)[k]).challenger == q || self.match_at(
                self.history(q)[k],
            ).opponent == q)
    }

    /// Each player has at most one history entry, and every recorded id names
    /// a stored match that the player took part in.
    pub open spec fn player_index_wf(self) -> bool {
        &&& unique_players(self.player_index@)
        &&& self.histories_participants_ok()
    }

    /// The engine's standing invariant, established by `new` and kept by every
    /// lifecycle operation.
    pub open spec fn valid(self) -> bool {
        self.matches_wf() && self.open_index_wf() && self.player_index_wf()
    }

    /// The two states hold the same matches, index contents and histories.
    pub open spec fn unchanged(pre: Self, post: Self) -> bool {
        &&& post.match_count == pre.match_count
        &&& post.matches@ == pre.matches@
        &&& post.open_matches@ == pre.open_matches@
        &&& post.player_index@ == pre.player_index@
    }

    /// A fresh engine: no matches, nothing open, empty histories.
    pub fn new() -> (r: Self)
        ensures
            r.valid(),
            r.match_count == 0,
            r.matches@ == Seq::<TacticsMatch>::empty(),
            r.open_matches@ == Seq::<u64>::empty(),
            forall|q: u64| r.history(q) == Seq::<u64>::empty(),
    {
        let r = FifaGameContract {
            match_count: 0,
            matches: Vec::new(),
            open_matches: Vec::new(),
            player_index: Vec::new(),
        };
        proof {
            assert(forall|q: u64|
                history_of(r.player_index@, q) == Seq::<u64>::empty());
        }
        r
    }

    /// Why `create_match` refuses a request, if it does: a tactic outside
    /// [0, 6] is a validation error; a club the registry does not attribute to
    /// the challenger is an authorization error.
    pub open spec fn create_error(challenger: u64, club_owner: u64, t: (u32, u32, u32)) -> Option<
        GameError,
    > {
        if !tactics_valid(t) {
            Some(GameError::Validation)
        } else if club_owner != challenger {
            Some(GameError::Authorization)
        } else {
            None
        }
    }

    /// The transition a successful `create_match` makes: the counter advances
    /// to `id`, the new Open record is appended to the table, `id` enters the
    /// open index at the back and the challenger's history at the back, and
    /// nothing else moves.
    pub open spec fn create_ok(
        pre: Self,
        post: Self,
        challenger: u64,
        club_id: u64,
        t: (u32, u32, u32),
        now: u64,
        id: u64,
    ) -> bool {
        &&& id == pre.match_count + 1
        &&& post.match_count == id
        &&& post.matches@ == pre.matches@.push(new_open_match(id, challenger, club_id, t, now))
        &&& post.open_matches@ == pre.open_matches@.push(id)
        &&& post.history(challenger) == pre.history(challenger).push(id)
        &&& forall|q: u64| q != challenger ==> post.history(q) == pre.history(q)
    }

    /// Creates a match challenge with three tactics.
    ///
    /// `club_owner` is the owner the club registry reports for `club_id`; the
    /// caller is responsible for `now` (the current clock) and for having
    /// authenticated `challenger`.  On success returns the new match id.
    pub fn create_match(
        &mut self,
        challenger: u64,
        club_id: u64,
        club_owner: u64,
        t1: u32,
        t2: u32,
        t3: u32,
        now: u64,
    ) -> (r: Result<u64, GameError>)
        requires
            old(self).valid(),
            old(self).match_count < u64::MAX,
        ensures
            final(self).valid(),
            match Self::create_error(challenger, club_owner, (t1, t2, t3)) {
                Some(e) => r == Err::<u64, GameError>(e) && Self::unchanged(
                    *old(self),
                    *final(self),
                ),
                None => r == Ok::<u64, GameError>((old(self).match_count + 1) as u64)
                    && Self::create_ok(
                    *old(self),
                    *final(self),
                    challenger,
                    club_id,
                    (t1, t2, t3),
                    now,
                    (old(self).match_count + 1) as u64,
                ),
            },
    {
        if t1 > 6 || t2 > 6 || t3 > 6 {
            return Err(GameError::Validation);
        }
        if club_owner != challenger {
            return Err(GameError::Authorization);
        }

        let id = self.match_count + 1;
        let m = TacticsMatch {
            id,
            challenger,
            challenger_club: club_id,
            challenger_tactics: (t1, t2, t3),
            opponent: challenger,
            opponent_club: 0,
            opponent_tactics: (0, 0, 0),
            status: MatchStatus::Open,
            winner_club: 0,
            rounds_won: (0, 0),
            created_at: now,
        };

        self.match_count = id;
        self.matches.push(m);
        self.open_matches.push(id);
        append_history(&mut self.player_index, challenger, id);

        proof {
            let pre = *old(self);
            let post = *self;
            assert(m == new_open_match(id, challenger, club_id, (t1, t2, t3), now));
            assert(post.matches_wf()) by {
                assert forall|i: int| 0 <= i < post.matches@.len() implies (
                #[trigger] post.matches@[i]).id == i + 1 && match_wf(post.matches@[i]) by {
                    if i < pre.matches@.len() {
                        assert(post.matches@[i] == pre.matches@[i]);
                    }
                }
            }
            assert(post.open_index_wf()) by {
                assert forall|j: int|
                    0 <= j < post.open_matches@.len() implies post.has_match(
                    #[trigger] post.open_matches@[j],
                ) && post.match_at(post.open_matches@[j]).status == MatchStatus::Open by {
                    if j < pre.open_matches@.len() {
                        assert(post.open_matches@[j] == pre.open_matches@[j]);
                        let oid = pre.open_matches@[j];
                        assert(pre.has_match(oid));
                        assert(post.matches@[oid - 1] == pre.matches@[oid - 1]);
                    } else {
                        assert(post.open_matches@[j] == id);
                    }
                }
                assert forall|a: int, b: int|
                    0 <= a < b < post.open_matches@.len() implies post.open_matches@[a]
                    != post.open_matches@[b] by {
                    if b < pre.open_matches@.len() {
                    } else {
                        assert(post.open_matches@[b] == id);
                        assert(pre.has_match(pre.open_matches@[a]));
                    }
                }
                assert forall|i: int|
                    0 <= i < post.matches@.len() && (#[trigger] post.matches@[i]).status
                    == MatchStatus::Open implies post.open_matches@.contains(
                    post.matches@[i].id,
                ) by {
                    if i < pre.matches@.len() {
                        assert(post.matches@[i] == pre.matches@[i]);
                        assert(pre.open_matches@.contains(pre.matches@[i].id));
                        let j = choose|j: int|
                            0 <= j < pre.open_matches@.len() && pre.open_matches@[j]
                                == pre.matches@[i].id;
                        assert(post.open_matches@[j] == pre.matches@[i].id);
                    } else {
                        assert(post.matches@[i] == m);
                        assert(post.open_matches@[post.open_matches@.len() - 1] == id);
                    }
                }
            }
            assert(post.player_index_wf()) by {
                assert forall|q: u64, k: int|
                    0 <= k < post.history(q).len() implies post.has_match(
                    #[trigger] post.history(q)[k],
                ) && (post.match_at(post.history(q)[k]).challenger == q || post.match_at(
                    post.history(q)[k],
                ).opponent == q) by {
                    if q == challenger {
                        assert(post.history(q) == pre.history(q).push(id));
                        if k < pre.history(q).len() {
                            assert(post.history(q)[k] == pre.history(q)[k]);
                            let mid = pre.history(q)[k];
                            assert(pre.has_match(mid));
                            assert(post.matches@[mid - 1] == pre.matches@[mid - 1]);
                        } else {
                            assert(post.history(q)[k] == id);
                            assert(post.match_at(id) == m);
                        }
                    } else {
                        assert(post.history(q) == pre.history(q));
                        let mid = pre.history(q)[k];
                        assert(pre.has_match(mid));
                        assert(post.matches@[mid - 1] == pre.matches@[mid - 1]);
                    }
                }
            }
        }
        Ok(id)
    }

    /// Why `accept_match` refuses a request, if it does: invalid tactics are a
    /// validation error, an unknown id a not-found error, a match no longer
    /// Open a state error, an opponent equal to the stored challenger a
    /// self-play error, and a club the registry does not attribute to the
    /// opponent an authorization error, checked in that order.
    pub open spec fn accept_error(
        pre: Self,
        opponent: u64,
        match_id: u64,
        club_owner: u64,
        t: (u32, u32, u32),
    ) -> Option<GameError> {
        if !tactics_valid(t) {
            Some(GameError::Validation)
        } else if !pre.has_match(match_id) {
            Some(GameError::NotFound)
        } else if pre.match_at(match_id).status != MatchStatus::Open {
            Some(GameError::State)
        } else if pre.match_at(match_id).challenger == opponent {
            Some(GameError::SelfPlay)
        } else if club_owner != opponent {
            Some(GameError::Authorization)
        } else {
            None
        }
    }

    /// The finalized record a successful `accept_match` stores for the Open
    /// record `m`: three rounds are resolved pairing `m.challenger_tactics`
    /// with `t` round for round under stats `cs` (challenger's club) and `os`
    /// (opponent's club), the majority of round wins names the winner club,
    /// and an even split — however it arose — is a draw (sentinel 0).
    pub open spec fn accept_outcome(
        m: TacticsMatch,
        opponent: u64,
        club_id: u64,
        cs: ClubStats,
        os: ClubStats,
        t: (u32, u32, u32),
    ) -> TacticsMatch {
        let p1 = rounds_won_by_challenger(cs, m.challenger_tactics, os, t);
        let p2 = rounds_won_by_opponent(cs, m.challenger_tactics, os, t);
        resolved_match(
            m,
            opponent,
            club_id,
            t,
            winner_of(m.challenger_club, club_id, p1, p2),
            (p1 as u32, p2 as u32),
        )
    }

    /// The transition a successful `accept_match` makes: the record is
    /// finalized in place, its id leaves the open index and enters the
    /// opponent's history at the back, and nothing else moves.
    pub open spec fn accept_ok(
        pre: Self,
        post: Self,
        opponent: u64,
        match_id: u64,
        club_id: u64,
        cs: ClubStats,
        os: ClubStats,
        t: (u32, u32, u32),
    ) -> bool {
        &&& post.match_count == pre.match_count
        &&& post.matches@ == pre.matches@.update(
            match_id - 1,
            Self::accept_outcome(pre.match_at(match_id), opponent, club_id, cs, os, t),
        )
        &&& post.open_matches@ == seq_without(pre.open_matches@, match_id)
        &&& post.history(opponent) == pre.history(opponent).push(match_id)
        &&& forall|q: u64| q != opponent ==> post.history(q) == pre.history(q)
    }

    /// Accepts and resolves an open match.
    ///
    /// `club_owner` is the owner the club registry reports for `club_id`;
    /// `challenger_stats` are the registry's stats for the stored challenger
    /// club, `opponent_stats` those for `club_id`.  The caller is responsible
    /// for having authenticated `opponent`.  On success returns the finalized
    /// record; the caller propagates `record_outcomes` of it to the registry.
    pub fn accept_match(
        &mut self,
        opponent: u64,
        match_id: u64,
        club_id: u64,
        club_owner: u64,
        challenger_stats: &ClubStats,
        opponent_stats: &ClubStats,
        t1: u32,
        t2: u32,
        t3: u32,
    ) -> (r: Result<TacticsMatch, GameError>)
        requires
            old(self).valid(),
            stats_wf(*challenger_stats),
            stats_wf(*opponent_stats),
        ensures
            final(self).valid(),
            match Self::accept_error(*old(self), opponent, match_id, club_owner, (t1, t2, t3)) {
                Some(e) => r == Err::<TacticsMatch, GameError>(e) && Self::unchanged(
                    *old(self),
                    *final(self),
                ),
                None => r == Ok::<TacticsMatch, GameError>(
                    Self::accept_outcome(
                        old(self).match_at(match_id),
                        opponent,
                        club_id,
                        *challenger_stats,
                        *opponent_stats,
                        (t1, t2, t3),
                    ),
                ) && Self::accept_ok(
                    *old(self),
                    *final(self),
                    opponent,
                    match_id,
                    club_id,
                    *challenger_stats,
                    *opponent_stats,
                    (t1, t2, t3),
                ),
            },
    {
        if t1 > 6 || t2 > 6 || t3 > 6 {
            return Err(GameError::Validation);
        }
        if match_id < 1 || match_id > self.matches.len() as u64 {
            return Err(GameError::NotFound);
        }
        let idx = (match_id - 1) as usize;
        let m = self.matches[idx];
        if m.status != MatchStatus::Open {
            return Err(GameError::State);
        }
        if m.challenger == opponent {
            return Err(GameError::SelfPlay);
        }
        if club_owner != opponent {
            return Err(GameError::Authorization);
        }

        let mut p1_wins: u32 = 0;
        let mut p2_wins: u32 = 0;

        let (r1_p1, r1_p2, _) = calculate_round(
            challenger_stats,
            m.challenger_tactics.0,
            opponent_stats,
            t1,
        );
        if r1_p1 {
            p1_wins += 1;
        }
        if r1_p2 {
            p2_wins += 1;
        }

        let (r2_p1, r2_p2, _) = calculate_round(
            challenger_stats,
            m.challenger_tactics.1,
            opponent_stats,
            t2,
        );
        if r2_p1 {
            p1_wins += 1;
        }
        if r2_p2 {
            p2_wins += 1;
        }

        let (r3_p1, r3_p2, _) = calculate_round(
            challenger_stats,
            m.challenger_tactics.2,
            opponent_stats,
            t3,
        );
        if r3_p1 {
            p1_wins += 1;
        }
        if r3_p2 {
            p2_wins += 1;
        }

        let winner_club = if p1_wins > p2_wins {
            m.challenger_club
        } else if p2_wins > p1_wins {
            club_id
        } else {
            0
        };

        let updated = TacticsMatch {
            opponent,
            opponent_club: club_id,
            opponent_tactics: (t1, t2, t3),
            status: MatchStatus::Completed,
            winner_club,
            rounds_won: (p1_wins, p2_wins),
            ..m
        };

        self.matches.remove(idx);
        self.matches.insert(idx, updated);
        let new_open = remove_id(&self.open_matches, match_id);
        self.open_matches = new_open;
        append_history(&mut self.player_index, opponent, match_id);

        proof {
            let pre = *old(self);
            let post = *self;
            let cs = *challenger_stats;
            let os = *opponent_stats;
            let t = (t1, t2, t3);
            assert(p1_wins == rounds_won_by_challenger(cs, m.challenger_tactics, os, t));
            assert(p2_wins == rounds_won_by_opponent(cs, m.challenger_tactics, os, t));
            assert(updated == Self::accept_outcome(pre.match_at(match_id), opponent, club_id, cs, os, t));
            assert(post.matches@ =~= pre.matches@.update(idx as int, updated));
            lemma_without_no_duplicates(pre.open_matches@, match_id);
            assert(match_wf(updated)) by {
                assert(match_wf(m));
            }
            assert(post.matches_wf()) by {
                assert forall|i: int| 0 <= i < post.matches@.len() implies (
                #[trigger] post.matches@[i]).id == i + 1 && match_wf(post.matches@[i]) by {
                    if i != idx as int {
                        assert(post.matches@[i] == pre.matches@[i]);
                    }
                }
            }
            assert(post.open_index_wf()) by {
                assert forall|j: int|
                    0 <= j < post.open_matches@.len() implies post.has_match(
                    #[trigger] post.open_matches@[j],
                ) && post.match_at(post.open_matches@[j]).status == MatchStatus::Open by {
                    let oid = post.open_matches@[j];
                    assert(post.open_matches@.contains(oid));
                    lemma_without_membership(pre.open_matches@, match_id, oid);
                    assert(pre.open_matches@.contains(oid));
                    let j0 = choose|j0: int|
                        0 <= j0 < pre.open_matches@.len() && pre.open_matches@[j0] == oid;
                    assert(pre.has_match(oid));
                    assert(oid != match_id);
                    assert(post.matches@[oid - 1] == pre.matches@[oid - 1]);
                }
                assert forall|i: int|
                    0 <= i < post.matches@.len() && (#[trigger] post.matches@[i]).status
                    == MatchStatus::Open implies post.open_matches@.contains(
                    post.matches@[i].id,
                ) by {
                    if i != idx as int {
                        assert(post.matches@[i] == pre.matches@[i]);
                        assert(pre.open_matches@.contains(pre.matches@[i].id));
                        assert(pre.matches@[i].id == i + 1);
                        lemma_without_membership(pre.open_matches@, match_id, pre.matches@[i].id);
                    }
                }
            }
            assert(post.player_index_wf()) by {
                assert forall|q: u64, k: int|
                    0 <= k < post.history(q).len() implies post.has_match(
                    #[trigger] post.history(q)[k],
                ) && (post.match_at(post.history(q)[k]).challenger == q || post.match_at(
                    post.history(q)[k],
                ).opponent == q) by {
                    if q == opponent {
                        assert(post.history(q) == pre.history(q).push(match_id));
                        if k < pre.history(q).len() {
                            assert(post.history(q)[k] == pre.history(q)[k]);
                            let mid = pre.history(q)[k];
                            assert(pre.has_match(mid));
                            if mid != match_id {
                                assert(post.matches@[mid - 1] == pre.matches@[mid - 1]);
                            } else {
                                assert(post.matches@[mid - 1] == updated);
                            }
                        } else {
                            assert(post.history(q)[k] == match_id);
                            assert(post.match_at(match_id) == updated);
                        }
                    } else {
                        assert(post.history(q) == pre.history(q));
                        let mid = pre.history(q)[k];
                        assert(pre.has_match(mid));
                        if mid != match_id {
                            assert(post.matches@[mid - 1] == pre.matches@[mid - 1]);
                        } else {
                            assert(post.matches@[mid - 1] == updated);
                            assert(pre.match_at(match_id).challenger == q || pre.match_at(
                                match_id,
                            ).opponent == q);
                            assert(match_wf(pre.match_at(match_id)));
                        }
                    }
                }
            }
        }
        Ok(updated)
    }

    /// Why `cancel_match` refuses a request, if it does: an unknown id is a
    /// not-found error, a caller other than the stored challenger an
    /// authorization error, and a match no longer Open a state error, checked
    /// in that order.
    pub open spec fn cancel_error(pre: Self, challenger: u64, match_id: u64) -> Option<GameError> {
        if !pre.has_match(match_id) {
            Some(GameError::NotFound)
        } else if pre.match_at(match_id).challenger != challenger {
            Some(GameError::Authorization)
        } else if pre.match_at(match_id).status != MatchStatus::Open {
            Some(GameError::State)
        } else {
            None
        }
    }

    /// The transition a successful `cancel_match` makes: the record moves to
    /// Cancelled, its id leaves the open index, and nothing else moves.
    pub open spec fn cancel_ok(pre: Self, post: Self, match_id: u64) -> bool {
        &&& post.match_count == pre.match_count
        &&& post.matches@ == pre.matches@.update(
            match_id - 1,
            cancelled_match(pre.match_at(match_id)),
        )
        &&& post.open_matches@ == seq_without(pre.open_matches@, match_id)
        &&& post.player_index@ == pre.player_index@
    }

    /// Cancels an open match.  Only the match's own challenger may cancel, and
    /// only while the match is Open.  The caller is responsible for having
    /// authenticated `challenger`.
    pub fn cancel_match(&mut self, challenger: u64, match_id: u64) -> (r: Result<(), GameError>)
        requires
            old(self).valid(),
        ensures
            final(self).valid(),
            match Self::cancel_error(*old(self), challenger, match_id) {
                Some(e) => r == Err::<(), GameError>(e) && Self::unchanged(
                    *old(self),
                    *final(self),
                ),
                None => r == Ok::<(), GameError>(()) && Self::cancel_ok(
                    *old(self),
                    *final(self),
                    match_id,
                ),
            },
    {
        if match_id < 1 || match_id > self.matches.len() as u64 {
            return Err(GameError::NotFound);
        }
        let idx = (match_id - 1) as usize;
        let m = self.matches[idx];
        if m.challenger != challenger {
            return Err(GameError::Authorization);
        }
        if m.status != MatchStatus::Open {
            return Err(GameError::State);
        }

        let updated = TacticsMatch { status: MatchStatus::Cancelled, ..m };
        self.matches.remove(idx);
        self.matches.insert(idx, updated);
        let new_open = remove_id(&self.open_matches, match_id);
        self.open_matches = new_open;

        proof {
            let pre = *old(self);
            let post = *self;
            assert(post.matches@ =~= pre.matches@.update(idx as int, updated));
            assert(updated == cancelled_match(pre.match_at(match_id)));
            lemma_without_no_duplicates(pre.open_matches@, match_id);
            assert(post.matches_wf()) by {
                assert forall|i: int| 0 <= i < post.matches@.len() implies (
                #[trigger] post.matches@[i]).id == i + 1 && match_wf(post.matches@[i]) by {
                    if i != idx as int {
                        assert(post.matches@[i] == pre.matches@[i]);
                    } else {
                        assert(match_wf(pre.matches@[i]));
                    }
                }
            }
            assert(post.open_index_wf()) by {
                assert forall|j: int|
                    0 <= j < post.open_matches@.len() implies post.has_match(
                    #[trigger] post.open_matches@[j],
                ) && post.match_at(post.open_matches@[j]).status == MatchStatus::Open by {
                    let oid = post.open_matches@[j];
                    assert(post.open_matches@.contains(oid));
                    lemma_without_membership(pre.open_matches@, match_id, oid);
                    assert(pre.open_matches@.contains(oid));
                    let j0 = choose|j0: int|
                        0 <= j0 < pre.open_matches@.len() && pre.open_matches@[j0] == oid;
                    assert(pre.has_match(oid));
                    assert(oid != match_id);
                    assert(post.matches@[oid - 1] == pre.matches@[oid - 1]);
                }
                assert forall|i: int|
                    0 <= i < post.matches@.len() && (#[trigger] post.matches@[i]).status
                    == MatchStatus::Open implies post.open_matches@.contains(
                    post.matches@[i].id,
                ) by {
                    if i != idx as int {
                        assert(post.matches@[i] == pre.matches@[i]);
                        assert(pre.open_matches@.contains(pre.matches@[i].id));
                        assert(pre.matches@[i].id == i + 1);
                        lemma_without_membership(pre.open_matches@, match_id, pre.matches@[i].id);
                    }
                }
            }
            assert(post.player_index_wf()) by {
                assert forall|q: u64, k: int|
                    0 <= k < post.history(q).len() implies post.has_match(
                    #[trigger] post.history(q)[k],
                ) && (post.match_at(post.history(q)[k]).challenger == q || post.match_at(
                    post.history(q)[k],
                ).opponent == q) by {
                    assert(post.history(q) == pre.history(q));
                    let mid = pre.history(q)[k];
                    assert(pre.has_match(mid));
                    if mid != match_id {
                        assert(post.matches@[mid - 1] == pre.matches@[mid - 1]);
                    } else {
                        assert(post.matches@[mid - 1] == updated);
                    }
                }
            }
        }
        Ok(())
    }

    /// What a finalized match means for the two clubs' registry records, in
    /// the order (challenger's club, opponent's club): a Win/Loss pairing when
    /// the winner is the challenger's club, Loss/Win when it is the opponent's
    /// (the challenger's club is compared first), and Draw/Draw otherwise.
    pub open spec fn outcome_pair(m: TacticsMatch) -> (MatchResult, MatchResult) {
        if m.winner_club == m.challenger_club {
            (MatchResult::Win, MatchResult::Loss)
        } else if m.winner_club == m.opponent_club {
            (MatchResult::Loss, MatchResult::Win)
        } else {
            (MatchResult::Draw, MatchResult::Draw)
        }
    }

    /// The record updates the caller owes the club registry after accepting a
    /// match, in the order (challenger's club, opponent's club).
    pub fn record_outcomes(m: &TacticsMatch) -> (r: (MatchResult, MatchResult))
        ensures
            r == Self::outcome_pair(*m),
    {
        if m.winner_club == m.challenger_club {
            (MatchResult::Win, MatchResult::Loss)
        } else if m.winner_club == m.opponent_club {
            (MatchResult::Loss, MatchResult::Win)
        } else {
            (MatchResult::Draw, MatchResult::Draw)
        }
    }

    /// Total number of matches ever created.
    pub fn get_match_count(&self) -> (r: u64)
        ensures
            r == self.match_count,
    {
        self.match_count
    }

    /// Looks a match up by id.
    pub fn get_match(&self, match_id: u64) -> (r: Result<TacticsMatch, GameError>)
        ensures
            self.has_match(match_id) ==> r == Ok::<TacticsMatch, GameError>(
                self.match_at(match_id),
            ),
            !self.has_match(match_id) ==> r == Err::<TacticsMatch, GameError>(GameError::NotFound),
    {
        if match_id >= 1 && match_id <= self.matches.len() as u64 {
            Ok(self.matches[(match_id - 1) as usize])
        } else {
            Err(GameError::NotFound)
        }
    }

    /// The ids of the currently open matches, in order of creation.
    pub fn get_open_matches(&self) -> (r: Vec<u64>)
        ensures
            r@ == self.open_matches@,
    {
        copy_ids(&self.open_matches)
    }

    /// A player's full match history, in append order.
    pub fn get_player_matches(&self, player: u64) -> (r: Vec<u64>)
        requires
            self.valid(),
        ensures
            r@ == self.history(player),
    {
        player_history(&self.player_index, player)
    }

    /// Entry-wise reading of `histories_participants_ok`: every id in every
    /// index entry names a stored match its entry's player took part in.
    pub open spec fn entries_participants_ok(self) -> bool {
        forall|i: int, k: int|
            0 <= i < self.player_index@.len() && 0 <= k
                < (#[trigger] self.player_index@[i]).matches@.len() ==> self.has_match(
                #[trigger] self.player_index@[i].matches@[k],
            ) && (self.match_at(self.player_index@[i].matches@[k]).challenger
                == self.player_index@[i].player || self.match_at(
                self.player_index@[i].matches@[k],
            ).opponent == self.player_index@[i].player)
    }

    /// With unique keys, checking each index entry is checking each player's
    /// history.
    pub proof fn lemma_participants_entrywise(self)
        requires
            unique_players(self.player_index@),
        ensures
            self.entries_participants_ok() <==> self.histories_participants_ok(),
    {
        if self.entries_participants_ok() {
            assert forall|q: u64, k: int|
                0 <= k < self.history(q).len() implies self.has_match(
                #[trigger] self.history(q)[k],
            ) && (self.match_at(self.history(q)[k]).challenger == q || self.match_at(
                self.history(q)[k],
            ).opponent == q) by {
                if !has_player(self.player_index@, q) {
                    lemma_history_absent(self.player_index@, q);
                } else {
                    let i = choose|i: int|
                        0 <= i < self.player_index@.len() && self.player_index@[i].player == q;
                    lemma_history_found(self.player_index@, i, q);
                    assert(self.player_index@[i].matches@[k] == self.history(q)[k]);
                }
            }
        }
        if self.histories_participants_ok() {
            assert forall|i: int, k: int|
                0 <= i < self.player_index@.len() && 0 <= k
                    < (#[trigger] self.player_index@[i]).matches@.len() implies self.has_match(
                #[trigger] self.player_index@[i].matches@[k],
            ) && (self.match_at(self.player_index@[i].matches@[k]).challenger
                == self.player_index@[i].player || self.match_at(
                self.player_index@[i].matches@[k],
            ).opponent == self.player_index@[i].player) by {
                let q = self.player_index@[i].player;
                lemma_history_found(self.player_index@, i, q);
                assert(self.history(q)[k] == self.player_index@[i].matches@[k]);
            }
        }
    }

    /// Runtime check of the standing invariant, for callers that persist the
    /// engine's state outside the engine and hand it back.
    pub fn check_valid(&self) -> (r: bool)
        ensures
            r == self.valid(),
    {
        // The match table: densely id-keyed, counted, each record well formed.
        if self.matches.len() as u64 != self.match_count {
            return false;
        }
        let mut i: usize = 0;
        while i < self.matches.len()
            invariant
                i <= self.matches@.len(),
                forall|a: int|
                    0 <= a < i ==> (#[trigger] self.matches@[a]).id == a + 1 && match_wf(
                        self.matches@[a],
                    ),
            decreases self.matches@.len() - i,
        {
            if self.matches[i].id != (i as u64) + 1 {
                return false;
            }
            if !check_match_wf(&self.matches[i]) {
                return false;
            }
            i += 1;
        }

        // The open-match index: no duplicates, sound and complete.
        if !check_no_duplicates(&self.open_matches) {
            return false;
        }
        let mut j: usize = 0;
        while j < self.open_matches.len()
            invariant
                j <= self.open_matches@.len(),
                forall|b: int|
                    0 <= b < j ==> self.has_match(#[trigger] self.open_matches@[b])
                        && self.match_at(self.open_matches@[b]).status == MatchStatus::Open,
            decreases self.open_matches@.len() - j,
        {
            let oid = self.open_matches[j];
            if oid < 1 || oid > self.matches.len() as u64 {
                return false;
            }
            if self.matches[(oid - 1) as usize].status != MatchStatus::Open {
                return false;
            }
            j += 1;
        }
        let mut i: usize = 0;
        while i < self.matches.len()
            invariant
                i <= self.matches@.len(),
                forall|a: int|
                    0 <= a < i && (#[trigger] self.matches@[a]).status == MatchStatus::Open
                        ==> self.open_matches@.contains(self.matches@[a].id),
            decreases self.matches@.len() - i,
        {
            if self.matches[i].status == MatchStatus::Open {
                if !contains_id(&self.open_matches, self.matches[i].id) {
                    return false;
                }
            }
            i += 1;
        }

        // The player index: unique keys, every recorded id a match of that
        // player's.
        if !check_unique_players(&self.player_index) {
            return false;
        }
        let mut i: usize = 0;
        while i < self.player_index.len()
            invariant
                i <= self.player_index@.len(),
                unique_players(self.player_index@),
                forall|a: int, k: int|
                    0 <= a < i && 0 <= k < (#[trigger] self.player_index@[a]).matches@.len()
                        ==> self.has_match(#[trigger] self.player_index@[a].matches@[k]) && (
                    self.match_at(self.player_index@[a].matches@[k]).challenger
                        == self.player_index@[a].player || self.match_at(
                        self.player_index@[a].matches@[k],
                    ).opponent == self.player_index@[a].player),
            decreases self.player_index@.len() - i,
        {
            let player = self.player_index[i].player;
            let mut k: usize = 0;
            while k < self.player_index[i].matches.len()
                invariant
                    i < self.player_index@.len(),
                    k <= self.player_index@[i as int].matches@.len(),
                    unique_players(self.player_index@),
                    self.player_index@[i as int].player == player,
                    forall|b: int|
                        0 <= b < k ==> self.has_match(
                            #[trigger] self.player_index@[i as int].matches@[b],
                        ) && (self.match_at(self.player_index@[i as int].matches@[b]).challenger
                            == player || self.match_at(
                            self.player_index@[i as int].matches@[b],
                        ).opponent == player),
                decreases self.player_index@[i as int].matches@.len() - k,
            {
                let mid = self.player_index[i].matches[k];
                if mid < 1 || mid > self.matches.len() as u64 {
                    proof {
                        self.lemma_participants_entrywise();
                    }
                    return false;
                }
                let mm = &self.matches[(mid - 1) as usize];
                if mm.challenger != player && mm.opponent != player {
                    proof {
                        self.lemma_participants_entrywise();
                    }
                    return false;
                }
                k += 1;
            }
            i += 1;
        }
        proof {
            self.lemma_participants_entrywise();
        }
        true
    }

    /// A match that `create_match` just made is Open, has no rounds scored and
    /// no winner, and sits in the open-match index, so a lookup of the new id
    /// shows exactly that.
    pub proof fn lemma_created_match_is_open(
        pre: Self,
        post: Self,
        challenger: u64,
        club_id: u64,
        t: (u32, u32, u32),
        now: u64,
        id: u64,
    )
        requires
            pre.valid(),
            Self::create_ok(pre, post, challenger, club_id, t, now, id),
        ensures
            post.has_match(id),
            post.match_at(id).status == MatchStatus::Open,
            post.match_at(id).rounds_won == (0u32, 0u32),
            post.match_at(id).winner_club == 0,
            post.open_matches@.contains(id),
    {
        assert(post.matches@[id - 1] == new_open_match(id, challenger, club_id, t, now));
        assert(post.open_matches@[post.open_matches@.len() - 1] == id);
    }

    /// Accepting moves the match from Open to Completed exactly once: the
    /// stored record is Completed with the resolved winner and at most three
    /// round wins in total (strictly fewer when a round drew), and any further
    /// acceptance of the same id is refused — with a state error whenever its
    /// tactics are valid.
    pub proof fn lemma_accept_completes_once(
        pre: Self,
        post: Self,
        opponent: u64,
        match_id: u64,
        club_id: u64,
        cs: ClubStats,
        os: ClubStats,
        t: (u32, u32, u32),
        opponent2: u64,
        club_owner2: u64,
        t2: (u32, u32, u32),
    )
        requires
            pre.valid(),
            pre.has_match(match_id),
            Self::accept_ok(pre, post, opponent, match_id, club_id, cs, os, t),
        ensures
            post.has_match(match_id),
            post.match_at(match_id).status == MatchStatus::Completed,
            post.match_at(match_id).winner_club == winner_of(
                pre.match_at(match_id).challenger_club,
                club_id,
                rounds_won_by_challenger(cs, pre.match_at(match_id).challenger_tactics, os, t),
                rounds_won_by_opponent(cs, pre.match_at(match_id).challenger_tactics, os, t),
            ),
            post.match_at(match_id).rounds_won.0 + post.match_at(match_id).rounds_won.1 <= 3,
            has_drawn_round(cs, pre.match_at(match_id).challenger_tactics, os, t) ==> post.match_at(
                match_id,
            ).rounds_won.0 + post.match_at(match_id).rounds_won.1 < 3,
            tactics_valid(t2) ==> Self::accept_error(post, opponent2, match_id, club_owner2, t2)
                == Some(GameError::State),
    {
        lemma_rounds_won_bounds(cs, pre.match_at(match_id).challenger_tactics, os, t);
    }

    /// Cancelling is refused with an authorization error for any caller other
    /// than the match's original challenger, whatever state the match is in.
    pub proof fn lemma_cancel_requires_challenger(s: Self, caller: u64, match_id: u64)
        requires
            s.has_match(match_id),
            caller != s.match_at(match_id).challenger,
        ensures
            Self::cancel_error(s, caller, match_id) == Some(GameError::Authorization),
    {
    }

    /// Once a match has been accepted, nobody can cancel it any more: the
    /// challenger is refused with a state error, anybody else with an
    /// authorization error.
    pub proof fn lemma_cancel_after_accept_fails(
        pre: Self,
        post: Self,
        opponent: u64,
        match_id: u64,
        club_id: u64,
        cs: ClubStats,
        os: ClubStats,
        t: (u32, u32, u32),
        caller: u64,
    )
        requires
            pre.valid(),
            pre.has_match(match_id),
            Self::accept_ok(pre, post, opponent, match_id, club_id, cs, os, t),
        ensures
            Self::cancel_error(post, caller, match_id) is Some,
            caller == post.match_at(match_id).challenger ==> Self::cancel_error(
                post,
                caller,
                match_id,
            ) == Some(GameError::State),
            caller != post.match_at(match_id).challenger ==> Self::cancel_error(
                post,
                caller,
                match_id,
            ) == Some(GameError::Authorization),
    {
    }

    /// A successful cancellation (and likewise an acceptance, which leaves the
    /// open index through the same removal) takes exactly the one id out of
    /// the open index: the index shrinks by one, no longer lists the id, and
    /// keeps every other id.
    pub proof fn lemma_cancel_shrinks_open_index(pre: Self, post: Self, match_id: u64)
        requires
            pre.valid(),
            pre.has_match(match_id),
            pre.match_at(match_id).status == MatchStatus::Open,
            Self::cancel_ok(pre, post, match_id),
        ensures
            post.open_matches@.len() == pre.open_matches@.len() - 1,
            !post.open_matches@.contains(match_id),
            forall|x: u64|
                x != match_id ==> (post.open_matches@.contains(x) <==> pre.open_matches@.contains(
                    x,
                )),
    {
        let idx = match_id - 1;
        assert(pre.matches@[idx].status == MatchStatus::Open);
        assert(pre.open_matches@.contains(pre.matches@[idx].id));
        lemma_without_len(pre.open_matches@, match_id);
        lemma_without_membership(pre.open_matches@, match_id, match_id);
        assert forall|x: u64| x != match_id implies (post.open_matches@.contains(x)
            <==> pre.open_matches@.contains(x)) by {
            lemma_without_membership(pre.open_matches@, match_id, x);
        }
    }

    /// A stored match's winner is always the sentinel 0 or one of the two
    /// participating clubs.
    pub proof fn lemma_winner_club_valid(s: Self, match_id: u64)
        requires
            s.valid(),
            s.has_match(match_id),
        ensures
            s.match_at(match_id).winner_club == 0 || s.match_at(match_id).winner_club
                == s.match_at(match_id).challenger_club || s.match_at(match_id).winner_club
                == s.match_at(match_id).opponent_club,
    {
        assert(match_wf(s.matches@[match_id - 1]));
    }

    /// No stored match hands out more than three round wins in total.
    pub proof fn lemma_rounds_won_bounded(s: Self, match_id: u64)
        requires
            s.valid(),
            s.has_match(match_id),
        ensures
            s.match_at(match_id).rounds_won.0 + s.match_at(match_id).rounds_won.1 <= 3,
    {
        assert(match_wf(s.matches@[match_id - 1]));
    }

    /// The open-match index never lists an id whose stored match is not Open.
    pub proof fn lemma_open_index_sound(s: Self, id: u64)
        requires
            s.valid(),
            s.open_matches@.contains(id),
        ensures
            s.has_match(id),
            s.match_at(id).status == MatchStatus::Open,
    {
        let j = choose|j: int| 0 <= j < s.open_matches@.len() && s.open_matches@[j] == id;
        assert(s.has_match(s.open_matches@[j]));
    }
}

} // verus!
