//! The vote store representation: a sequence of (voter identity, vote)
//! records with pairwise-distinct identities, together with the mapping from
//! voter identity to current vote that such a sequence denotes.

use vstd::prelude::*;

use crate::types::Vote;
use crate::types::VoteView;

verus! {

/// The voter identities of the records in `s` are pairwise distinct, so the
/// store holds at most one vote per voter.
pub open spec fn vote_keys_distinct(s: Seq<(String, Vote)>) -> bool {
    forall|i: int, j: int| 0 <= i < j < s.len() ==> s[i].0@ != s[j].0@
}

/// The mapping from voter identity to that voter's current vote denoted by
/// the records in `s`; for duplicate identities the later record wins.
pub open spec fn votes_map(s: Seq<(String, Vote)>) -> Map<Seq<char>, VoteView>
    decreases s.len(),
{
    if s.len() == 0 {
        Map::empty()
    } else {
        votes_map(s.drop_last()).insert(s.last().0@, s.last().1@)
    }
}

/// The denoted mapping has a key exactly for the identities that occur in the
/// record sequence.
pub proof fn lemma_votes_map_contains(s: Seq<(String, Vote)>, a: Seq<char>)
    ensures
        votes_map(s).contains_key(a) <==> exists|i: int| 0 <= i < s.len() && s[i].0@ == a,
    decreases s.len(),
{
    if s.len() == 0 {
    } else {
        lemma_votes_map_contains(s.drop_last(), a);
        if s.last().0@ == a {
            assert(s[s.len() - 1].0@ == a);
        } else {
            if exists|i: int| 0 <= i < s.len() && s[i].0@ == a {
                let i = choose|i: int| 0 <= i < s.len() && s[i].0@ == a;
                assert(s.drop_last()[i].0@ == a);
            }
            if exists|i: int| 0 <= i < s.drop_last().len() && s.drop_last()[i].0@ == a {
                let i = choose|i: int| 0 <= i < s.drop_last().len() && s.drop_last()[i].0@ == a;
                assert(s[i].0@ == a);
            }
        }
    }
}

/// With distinct identities, the record at index `i` gives the denoted
/// mapping's value at its identity.
pub proof fn lemma_votes_map_index(s: Seq<(String, Vote)>, i: int, a: Seq<char>)
    requires
        vote_keys_distinct(s),
        0 <= i < s.len(),
        s[i].0@ == a,
    ensures
        votes_map(s).contains_key(a),
        votes_map(s)[a] == s[i].1@,
    decreases s.len(),
{
    if i == s.len() - 1 {
    } else {
        assert(s.last().0@ != a);
        assert(s.drop_last()[i].0@ == a);
        lemma_votes_map_index(s.drop_last(), i, a);
    }
}

/// Appending a record for a fresh identity inserts its vote into the denoted
/// mapping.
pub proof fn lemma_votes_map_push(s: Seq<(String, Vote)>, p: (String, Vote))
    ensures
        votes_map(s.push(p)) == votes_map(s).insert(p.0@, p.1@),
{
    assert(s.push(p).drop_last() =~= s);
    assert(s.push(p).last() == p);
}

/// With distinct identities, overwriting the record that holds identity
/// `p.0@` in place inserts the new vote into the denoted mapping.
pub proof fn lemma_votes_map_update(s: Seq<(String, Vote)>, i: int, p: (String, Vote))
    requires
        vote_keys_distinct(s),
        0 <= i < s.len(),
        s[i].0@ == p.0@,
    ensures
        votes_map(s.update(i, p)) == votes_map(s).insert(p.0@, p.1@),
    decreases s.len(),
{
    let s2 = s.update(i, p);
    if i == s.len() - 1 {
        assert(s2.drop_last() =~= s.drop_last());
        assert(s2.last() == p);
        assert(s.last().0@ == p.0@);
        assert(votes_map(s.drop_last()).insert(s.last().0@, s.last().1@).insert(p.0@, p.1@)
            =~= votes_map(s.drop_last()).insert(p.0@, p.1@));
    } else {
        assert(vote_keys_distinct(s.drop_last())) by {
            assert(forall|x: int, y: int|
                0 <= x < y < s.drop_last().len() ==> s.drop_last()[x].0@ == s[x].0@
                    && s.drop_last()[y].0@ == s[y].0@);
        }
        assert(s.drop_last()[i].0@ == p.0@);
        lemma_votes_map_update(s.drop_last(), i, p);
        assert(s2.drop_last() =~= s.drop_last().update(i, p));
        assert(s2.last() == s.last());
        assert(s.last().0@ != p.0@) by {
            assert(s[i].0@ != s[s.len() - 1].0@);
        }
        assert(votes_map(s.drop_last()).insert(p.0@, p.1@).insert(s.last().0@, s.last().1@)
            =~= votes_map(s.drop_last()).insert(s.last().0@, s.last().1@).insert(p.0@, p.1@));
    }
}

} // verus!
