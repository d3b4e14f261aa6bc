//! The general laws of the ledger, proved against the transition functions
//! that the operations' contracts are stated with.

use vstd::prelude::*;

use crate::contract::ContractView;
use crate::contract::bump;
use crate::contract::counter_sum;
use crate::contract::counters_ok;
use crate::contract::get_spec;
use crate::contract::lemma_index_unique;
use crate::contract::names_unique;
use crate::contract::register_spec;
use crate::contract::registered;
use crate::contract::vote_spec;
use crate::types::Choice;
use crate::types::CoffeView;

verus! {

/// Law: registering a candidate entry and then reading an entry back by the
/// candidate's name yields exactly the stored entry — same name, and the
/// registering caller's identity as owner.
pub proof fn lemma_register_then_get(s: ContractView, c: CoffeView, account: Seq<char>)
    requires
        s.wf(),
    ensures
        get_spec(register_spec(s, c, account), c.name) == Some(registered(c, account)),
        registered(c, account).name == c.name,
        registered(c, account).account_id == Some(account),
{
    let s2 = register_spec(s, c, account);
    let e = registered(c, account);
    if s.has_coffe(c.name) {
        let idx = s.coffe_index(c.name);
        assert(0 <= idx < s.coffes.len() && s.coffes[idx].name == c.name);
        assert(s2.coffes == s.coffes.update(idx, e));
        assert(names_unique(s2.coffes)) by {
            assert(forall|k: int|
                0 <= k < s2.coffes.len() ==> s2.coffes[k].name == s.coffes[k].name);
        }
        lemma_index_unique(s2, c.name, idx);
    } else {
        let idx = s.coffes.len() as int;
        assert(s2.coffes == s.coffes.push(e));
        assert(names_unique(s2.coffes)) by {
            assert(forall|k: int| 0 <= k < idx ==> s2.coffes[k].name == s.coffes[k].name);
            assert(forall|k: int| 0 <= k < idx ==> s.coffes[k].name != c.name);
        }
        lemma_index_unique(s2, c.name, idx);
    }
}

/// Law (one step): a successful vote keeps the target entry present and
/// well-formed and grows the sum of its two tallies by exactly one, whatever
/// the choice and whoever the voter.
pub proof fn lemma_vote_step(s: ContractView, name: Seq<char>, choice: Choice, account: Seq<char>)
    requires
        s.wf(),
        s.has_coffe(name),
    ensures
        vote_spec(s, name, choice, account).wf(),
        vote_spec(s, name, choice, account).has_coffe(name),
        counter_sum(vote_spec(s, name, choice, account).coffe_at(name)) == counter_sum(
            s.coffe_at(name),
        ) + 1,
{
    let s2 = vote_spec(s, name, choice, account);
    let idx = s.coffe_index(name);
    assert(0 <= idx < s.coffes.len() && s.coffes[idx].name == name);
    let e = bump(s.coffe_at(name), choice);
    assert(e.name == name);
    assert(s2.coffes == s.coffes.update(idx, e));
    assert(names_unique(s2.coffes)) by {
        assert(forall|k: int| 0 <= k < s2.coffes.len() ==> s2.coffes[k].name == s.coffes[k].name);
    }
    assert(counters_ok(s2.coffes)) by {
        assert(forall|k: int|
            0 <= k < s2.coffes.len() && k != idx ==> s2.coffes[k] == s.coffes[k]);
    }
    lemma_index_unique(s2, name, idx);
}

/// The state after a sequence of vote events, each a (choice, voter identity)
/// pair cast in order on the entry named `name`.
pub open spec fn apply_votes(
    s: ContractView,
    name: Seq<char>,
    evs: Seq<(Choice, Seq<char>)>,
) -> ContractView
    decreases evs.len(),
{
    if evs.len() == 0 {
        s
    } else {
        vote_spec(apply_votes(s, name, evs.drop_last()), name, evs.last().0, evs.last().1)
    }
}

/// Law (counter monotonicity): over any sequence of vote events on an
/// existing entry, every vote succeeds and the sum of the entry's two tallies
/// grows by exactly the number of votes cast.
pub proof fn lemma_vote_tally(s: ContractView, name: Seq<char>, evs: Seq<(Choice, Seq<char>)>)
    requires
        s.wf(),
        s.has_coffe(name),
    ensures
        apply_votes(s, name, evs).wf(),
        apply_votes(s, name, evs).has_coffe(name),
        counter_sum(apply_votes(s, name, evs).coffe_at(name)) == counter_sum(s.coffe_at(name))
            + evs.len(),
    decreases evs.len(),
{
    if evs.len() == 0 {
    } else {
        lemma_vote_tally(s, name, evs.drop_last());
        lemma_vote_step(apply_votes(s, name, evs.drop_last()), name, evs.last().0, evs.last().1);
    }
}

/// Law (counter monotonicity, from a fresh entry): on an entry whose tallies
/// start at zero, the sum of the tallies after a sequence of vote events is
/// exactly the number of votes cast.
pub proof fn lemma_vote_tally_from_zero(
    s: ContractView,
    name: Seq<char>,
    evs: Seq<(Choice, Seq<char>)>,
)
    requires
        s.wf(),
        s.has_coffe(name),
        counter_sum(s.coffe_at(name)) == 0,
    ensures
        counter_sum(apply_votes(s, name, evs).coffe_at(name)) == evs.len(),
{
    lemma_vote_tally(s, name, evs);
}

} // verus!
