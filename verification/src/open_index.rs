//! The open-match index: the ordered list of ids of matches awaiting an
//! opponent.  Ids enter at the back when a match is created and leave when it
//! is accepted or cancelled; the order of the remaining ids is kept.

use vstd::prelude::*;

verus! {

/// `s` with every occurrence of `v` removed, order otherwise kept.
pub open spec fn seq_without(s: Seq<u64>, v: u64) -> Seq<u64>
    decreases s.len(),
{
    if s.len() == 0 {
        Seq::empty()
    } else {
        let rest = seq_without(s.drop_last(), v);
        if s.last() == v {
            rest
        } else {
            rest.push(s.last())
        }
    }
}

/// Removal keeps exactly the other values.
pub proof fn lemma_without_membership(s: Seq<u64>, v: u64, x: u64)
    ensures
        seq_without(s, v).contains(x) <==> (s.contains(x) && x != v),
    decreases s.len(),
{
    if s.len() == 0 {
    } else {
        lemma_without_membership(s.drop_last(), v, x);
        let rest = seq_without(s.drop_last(), v);
        if s.last() != v {
            assert forall|y: u64| rest.push(s.last()).contains(y) implies rest.contains(y)
                || y == s.last() by {
                let i = choose|i: int|
                    0 <= i < rest.push(s.last()).len() && rest.push(s.last())[i] == y;
                if i < rest.len() {
                    assert(rest[i] == y);
                }
            }
            if rest.push(s.last()).contains(x) {
                assert(s.contains(x) && x != v) by {
                    if rest.contains(x) {
                        assert(s.drop_last().contains(x));
                        let i = choose|i: int|
                            0 <= i < s.drop_last().len() && s.drop_last()[i] == x;
                        assert(s[i] == x);
                    } else {
                        assert(s[s.len() - 1] == x);
                    }
                }
            }
            if s.contains(x) && x != v {
                let i = choose|i: int| 0 <= i < s.len() && s[i] == x;
                if i < s.len() - 1 {
                    assert(s.drop_last()[i] == x);
                    assert(rest.contains(x));
                    let j = choose|j: int| 0 <= j < rest.len() && rest[j] == x;
                    assert(rest.push(s.last())[j] == x);
                } else {
                    assert(rest.push(s.last()).last() == x);
                }
            }
        } else {
            if rest.contains(x) {
                assert(s.drop_last().contains(x));
                let i = choose|i: int| 0 <= i < s.drop_last().len() && s.drop_last()[i] == x;
                assert(s[i] == x);
            }
            if s.contains(x) && x != v {
                let i = choose|i: int| 0 <= i < s.len() && s[i] == x;
                assert(i < s.len() - 1);
                assert(s.drop_last()[i] == x);
            }
        }
    }
}

/// Removing a value from a duplicate-free list keeps it duplicate-free.
pub proof fn lemma_without_no_duplicates(s: Seq<u64>, v: u64)
    requires
        s.no_duplicates(),
    ensures
        seq_without(s, v).no_duplicates(),
    decreases s.len(),
{
    if s.len() > 0 {
        assert(s.drop_last().no_duplicates());
        lemma_without_no_duplicates(s.drop_last(), v);
        let rest = seq_without(s.drop_last(), v);
        if s.last() != v {
            assert(!rest.contains(s.last())) by {
                lemma_without_membership(s.drop_last(), v, s.last());
                if s.drop_last().contains(s.last()) {
                    let i = choose|i: int|
                        0 <= i < s.drop_last().len() && s.drop_last()[i] == s.last();
                    assert(s[i] == s[s.len() - 1]);
                }
            }
            assert forall|a: int, b: int|
                0 <= a < rest.push(s.last()).len() && 0 <= b < rest.push(s.last()).len() && a
                != b implies rest.push(s.last())[a] != rest.push(s.last())[b] by {
                if a < rest.len() && b < rest.len() {
                } else if a < rest.len() {
                    assert(rest.contains(rest[a])) by {
                        assert(rest[a] == rest[a]);
                    }
                } else if b < rest.len() {
                    assert(rest.contains(rest[b])) by {
                        assert(rest[b] == rest[b]);
                    }
                }
            }
        }
    }
}

/// Removing a value that occurs once from a duplicate-free list shortens it by
/// one; removing an absent value changes nothing.
pub proof fn lemma_without_len(s: Seq<u64>, v: u64)
    requires
        s.no_duplicates(),
    ensures
        s.contains(v) ==> seq_without(s, v).len() == s.len() - 1,
        !s.contains(v) ==> seq_without(s, v) == s,
    decreases s.len(),
{
    if s.len() > 0 {
        assert(s.drop_last().no_duplicates());
        lemma_without_len(s.drop_last(), v);
        if s.last() == v {
            assert(!s.drop_last().contains(v)) by {
                if s.drop_last().contains(v) {
                    let i = choose|i: int| 0 <= i < s.drop_last().len() && s.drop_last()[i] == v;
                    assert(s[i] == s[s.len() - 1]);
                }
            }
            assert(s.contains(v)) by {
                assert(s[s.len() - 1] == v);
            }
        } else {
            if s.contains(v) {
                assert(s.drop_last().contains(v)) by {
                    let i = choose|i: int| 0 <= i < s.len() && s[i] == v;
                    assert(i < s.len() - 1);
                    assert(s.drop_last()[i] == v);
                }
            } else {
                assert(!s.drop_last().contains(v)) by {
                    if s.drop_last().contains(v) {
                        let i = choose|i: int|
                            0 <= i < s.drop_last().len() && s.drop_last()[i] == v;
                        assert(s[i] == v);
                    }
                }
                assert(seq_without(s, v) =~= s);
            }
        }
    }
}

/// Whether the index lists `x`.
pub fn contains_id(v: &Vec<u64>, x: u64) -> (r: bool)
    ensures
        r == v@.contains(x),
{
    let mut i: usize = 0;
    while i < v.len()
        invariant
            i <= v@.len(),
            forall|k: int| 0 <= k < i ==> v@[k] != x,
        decreases v@.len() - i,
    {
        if v[i] == x {
            return true;
        }
        i += 1;
    }
    false
}

/// Runtime check that the index lists no id twice.
pub fn check_no_duplicates(v: &Vec<u64>) -> (r: bool)
    ensures
        r == v@.no_duplicates(),
{
    let mut i: usize = 0;
    while i < v.len()
        invariant
            i <= v@.len(),
            forall|a: int, b: int| 0 <= a < b < v@.len() && a < i ==> v@[a] != v@[b],
        decreases v@.len() - i,
    {
        let mut j: usize = i + 1;
        while j < v.len()
            invariant
                i < j <= v@.len(),
                i < v@.len(),
                forall|b: int| i < b < j ==> v@[i as int] != v@[b],
            decreases v@.len() - j,
        {
            if v[i] == v[j] {
                return false;
            }
            j += 1;
        }
        i += 1;
    }
    true
}

/// Builds the index without `match_id`, keeping the order of the rest.
pub fn remove_id(open: &Vec<u64>, match_id: u64) -> (r: Vec<u64>)
    ensures
        r@ == seq_without(open@, match_id),
{
    let mut r: Vec<u64> = Vec::new();
    let mut i: usize = 0;
    while i < open.len()
        invariant
            i <= open@.len(),
            r@ == seq_without(open@.subrange(0, i as int), match_id),
        decreases open@.len() - i,
    {
        let id = open[i];
        proof {
            assert(open@.subrange(0, i as int + 1).drop_last() =~= open@.subrange(0, i as int));
            assert(open@.subrange(0, i as int + 1).last() == open@[i as int]);
        }
        if id != match_id {
            r.push(id);
        }
        i += 1;
    }
    proof {
        assert(open@.subrange(0, open@.len() as int) =~= open@);
    }
    r
}

} // verus!
