//! The per-player match-history index: a mapping from player identity to the
//! ordered, append-only sequence of match ids the player has participated in.
//!
//! The index is an association list with unique keys; `history_of` is its
//! mathematical reading, and the lemmas here relate it to the list operations
//! the engine performs.

use vstd::prelude::*;

verus! {

/// One player's entry in the index.
pub struct PlayerHistory {
    pub player: u64,
    pub matches: Vec<u64>,
}

/// No player owns two entries.
pub open spec fn unique_players(s: Seq<PlayerHistory>) -> bool {
    forall|i: int, j: int| 0 <= i < j < s.len() ==> s[i].player != s[j].player
}

/// Some entry belongs to `p`.
pub open spec fn has_player(s: Seq<PlayerHistory>, p: u64) -> bool {
    exists|i: int| 0 <= i < s.len() && s[i].player == p
}

/// The match ids recorded for player `p`: the contents of the first entry
/// with key `p`, or the empty sequence if there is none.
pub open spec fn history_of(s: Seq<PlayerHistory>, p: u64) -> Seq<u64>
    decreases s.len(),
{
    if s.len() == 0 {
        Seq::empty()
    } else if s[0].player == p {
        s[0].matches@
    } else {
        history_of(s.drop_first(), p)
    }
}

/// With unique keys, an entry with key `p` determines `p`'s whole history.
pub proof fn lemma_history_found(s: Seq<PlayerHistory>, i: int, p: u64)
    requires
        unique_players(s),
        0 <= i < s.len(),
        s[i].player == p,
    ensures
        history_of(s, p) == s[i].matches@,
    decreases s.len(),
{
    if i == 0 {
    } else {
        assert(s[0].player != p);
        assert(s.drop_first()[i - 1] == s[i]);
        assert(unique_players(s.drop_first())) by {
            assert forall|a: int, b: int|
                0 <= a < b < s.drop_first().len() implies s.drop_first()[a].player
                != s.drop_first()[b].player by {
                assert(s[a + 1].player != s[b + 1].player);
            }
        }
        lemma_history_found(s.drop_first(), i - 1, p);
    }
}

/// A player without an entry has an empty history.
pub proof fn lemma_history_absent(s: Seq<PlayerHistory>, p: u64)
    requires
        !has_player(s, p),
    ensures
        history_of(s, p) == Seq::<u64>::empty(),
    decreases s.len(),
{
    if s.len() > 0 {
        assert(s[0].player != p);
        assert(!has_player(s.drop_first(), p)) by {
            if has_player(s.drop_first(), p) {
                let i = choose|i: int|
                    0 <= i < s.drop_first().len() && s.drop_first()[i].player == p;
                assert(s[i + 1].player == p);
            }
        }
        lemma_history_absent(s.drop_first(), p);
    }
}

/// Replacing an entry under the same key leaves every other player's history
/// as it was.
pub proof fn lemma_history_update_other(s: Seq<PlayerHistory>, i: int, e: PlayerHistory, p: u64)
    requires
        0 <= i < s.len(),
        e.player == s[i].player,
        p != e.player,
    ensures
        history_of(s.update(i, e), p) == history_of(s, p),
    decreases s.len(),
{
    let s2 = s.update(i, e);
    if i == 0 {
        assert(s2[0].player != p);
        assert(s[0].player != p);
        assert(s2.drop_first() =~= s.drop_first());
    } else {
        assert(s2[0] == s[0]);
        if s[0].player != p {
            assert(s2.drop_first() =~= s.drop_first().update(i - 1, e));
            lemma_history_update_other(s.drop_first(), i - 1, e, p);
        }
    }
}

/// Appending an entry for one player leaves every other player's history as
/// it was.
pub proof fn lemma_history_push_other(s: Seq<PlayerHistory>, e: PlayerHistory, p: u64)
    requires
        p != e.player,
    ensures
        history_of(s.push(e), p) == history_of(s, p),
    decreases s.len(),
{
    if s.len() == 0 {
        assert(s.push(e)[0].player != p);
        assert(s.push(e).drop_first() =~= Seq::<PlayerHistory>::empty());
        assert(history_of(Seq::<PlayerHistory>::empty(), p) == Seq::<u64>::empty());
    } else {
        assert(s.push(e)[0] == s[0]);
        if s[0].player != p {
            assert(s.push(e).drop_first() =~= s.drop_first().push(e));
            lemma_history_push_other(s.drop_first(), e, p);
        }
    }
}

/// Appending an entry for a player without one gives that player exactly the
/// entry's contents.
pub proof fn lemma_history_push_self(s: Seq<PlayerHistory>, e: PlayerHistory)
    requires
        !has_player(s, e.player),
    ensures
        history_of(s.push(e), e.player) == e.matches@,
    decreases s.len(),
{
    if s.len() == 0 {
        assert(s.push(e)[0] == e);
    } else {
        assert(s[0].player != e.player);
        assert(s.push(e)[0] == s[0]);
        assert(!has_player(s.drop_first(), e.player)) by {
            if has_player(s.drop_first(), e.player) {
                let i = choose|i: int|
                    0 <= i < s.drop_first().len() && s.drop_first()[i].player == e.player;
                assert(s[i + 1].player == e.player);
            }
        }
        assert(s.push(e).drop_first() =~= s.drop_first().push(e));
        lemma_history_push_self(s.drop_first(), e);
    }
}

/// Finds the entry of `player`, if any.
fn find_player(entries: &Vec<PlayerHistory>, player: u64) -> (r: Option<usize>)
    ensures
        match r {
            Some(i) => i < entries@.len() && entries@[i as int].player == player,
            None => !has_player(entries@, player),
        },
{
    let mut i: usize = 0;
    while i < entries.len()
        invariant
            i <= entries@.len(),
            forall|j: int| 0 <= j < i ==> entries@[j].player != player,
        decreases entries@.len() - i,
    {
        if entries[i].player == player {
            return Some(i);
        }
        i += 1;
    }
    None
}

/// Appends `id` to `player`'s history, creating the entry if the player has
/// none.  Every other player's history is untouched.
pub fn append_history(entries: &mut Vec<PlayerHistory>, player: u64, id: u64)
    requires
        unique_players(old(entries)@),
    ensures
        unique_players(final(entries)@),
        history_of(final(entries)@, player) == history_of(old(entries)@, player).push(id),
        forall|q: u64|
            q != player ==> history_of(final(entries)@, q) == history_of(old(entries)@, q),
{
    let found = find_player(entries, player);
    match found {
        Some(i) => {
            let mut entry = entries.remove(i);
            entry.matches.push(id);
            let ghost e = entry;
            entries.insert(i, entry);
            proof {
                assert(entries@ =~= old(entries)@.update(i as int, e));
                assert(unique_players(entries@));
                lemma_history_found(old(entries)@, i as int, player);
                lemma_history_found(entries@, i as int, player);
                assert forall|q: u64| q != player implies history_of(entries@, q) == history_of(
                    old(entries)@,
                    q,
                ) by {
                    lemma_history_update_other(old(entries)@, i as int, e, q);
                }
            }
        },
        None => {
            let mut ids: Vec<u64> = Vec::new();
            ids.push(id);
            let entry = PlayerHistory { player, matches: ids };
            let ghost e = entry;
            entries.push(entry);
            proof {
                assert(unique_players(entries@)) by {
                    assert forall|a: int, b: int|
                        0 <= a < b < entries@.len() implies entries@[a].player
                        != entries@[b].player by {
                        if b < entries@.len() - 1 {
                            assert(entries@[a] == old(entries)@[a]);
                            assert(entries@[b] == old(entries)@[b]);
                        } else {
                            assert(entries@[a] == old(entries)@[a]);
                        }
                    }
                }
                lemma_history_absent(old(entries)@, player);
                lemma_history_push_self(old(entries)@, e);
                assert(history_of(entries@, player) =~= history_of(old(entries)@, player).push(
                    id,
                ));
                assert forall|q: u64| q != player implies history_of(entries@, q) == history_of(
                    old(entries)@,
                    q,
                ) by {
                    lemma_history_push_other(old(entries)@, e, q);
                }
            }
        },
    }
}

/// Runtime check that no player owns two entries.
pub fn check_unique_players(entries: &Vec<PlayerHistory>) -> (r: bool)
    ensures
        r == unique_players(entries@),
{
    let mut i: usize = 0;
    while i < entries.len()
        invariant
            i <= entries@.len(),
            forall|a: int, b: int|
                0 <= a < b < entries@.len() && a < i ==> entries@[a].player != entries@[b].player,
        decreases entries@.len() - i,
    {
        let mut j: usize = i + 1;
        while j < entries.len()
            invariant
                i < j <= entries@.len(),
                i < entries@.len(),
                forall|b: int| i < b < j ==> entries@[i as int].player != entries@[b].player,
            decreases entries@.len() - j,
        {
            if entries[i].player == entries[j].player {
                return false;
            }
            j += 1;
        }
        i += 1;
    }
    true
}

/// Copies a list of match ids.
pub fn copy_ids(v: &Vec<u64>) -> (r: Vec<u64>)
    ensures
        r@ == v@,
{
    let mut r: Vec<u64> = Vec::new();
    let mut i: usize = 0;
    while i < v.len()
        invariant
            i <= v@.len(),
            r@ == v@.subrange(0, i as int),
        decreases v@.len() - i,
    {
        r.push(v[i]);
        proof {
            assert(r@ =~= v@.subrange(0, i as int + 1));
        }
        i += 1;
    }
    proof {
        assert(v@.subrange(0, v@.len() as int) =~= v@);
    }
    r
}

/// Reads `player`'s full history, in append order.
pub fn player_history(entries: &Vec<PlayerHistory>, player: u64) -> (r: Vec<u64>)
    requires
        unique_players(entries@),
    ensures
        r@ == history_of(entries@, player),
{
    let found = find_player(entries, player);
    match found {
        Some(i) => {
            proof {
                lemma_history_found(entries@, i as int, player);
            }
            copy_ids(&entries[i].matches)
        },
        None => {
            proof {
                lemma_history_absent(entries@, player);
            }
            Vec::new()
        },
    }
}

} // verus!
