//! The state-transition core: the `Contract` owns the entry store and the
//! vote store, and exposes the four operations (register, vote, read-one,
//! read-page) together with the vote-store read capability.
//!
//! Every operation's effect is stated against the contract's mathematical
//! view, a [`ContractView`], through the transition functions
//! [`register_spec`] and [`vote_spec`] and the read functions [`get_spec`]
//! and [`page_end`].

use vstd::prelude::*;

use crate::types::Choice;
use crate::types::Coffe;
use crate::types::CoffeError;
use crate::types::CoffeView;
use crate::types::Vote;
use crate::types::VoteView;
use crate::vote_map::lemma_votes_map_contains;
use crate::vote_map::lemma_votes_map_index;
use crate::vote_map::lemma_votes_map_push;
use crate::vote_map::lemma_votes_map_update;
use crate::vote_map::vote_keys_distinct;
use crate::vote_map::votes_map;

verus! {

/// The views of a sequence of stored entries, in the same order.
pub open spec fn coffe_views(s: Seq<Coffe>) -> Seq<CoffeView> {
    s.map_values(|c: Coffe| c@)
}

/// The entry names in `s` are pairwise distinct: each name keys at most one
/// entry.
pub open spec fn names_unique(s: Seq<CoffeView>) -> bool {
    forall|i: int, j: int| 0 <= i < j < s.len() ==> s[i].name != s[j].name
}

/// Every tally in `s` is non-negative.
pub open spec fn counters_ok(s: Seq<CoffeView>) -> bool {
    forall|i: int|
        0 <= i < s.len() ==> s[i].number_of_like >= 0 && s[i].number_of_dislike >= 0
}

/// The mathematical value of a [`Contract`]: the ordered entry sequence and
/// the per-voter vote mapping.
#[verifier::ext_equal]
pub struct ContractView {
    /// The stored entries in stable insertion order.
    pub coffes: Seq<CoffeView>,
    /// Each voter identity's current vote.
    pub votes: Map<Seq<char>, VoteView>,
}

impl ContractView {
    /// Some stored entry is keyed by `name`.
    pub open spec fn has_coffe(self, name: Seq<char>) -> bool {
        exists|i: int| 0 <= i < self.coffes.len() && self.coffes[i].name == name
    }

    /// The position of the entry keyed by `name`; meaningful when
    /// `has_coffe(name)` holds and the names are unique.
    pub open spec fn coffe_index(self, name: Seq<char>) -> int {
        choose|i: int| 0 <= i < self.coffes.len() && self.coffes[i].name == name
    }

    /// The stored entry keyed by `name`.
    pub open spec fn coffe_at(self, name: Seq<char>) -> CoffeView {
        self.coffes[self.coffe_index(name)]
    }

    /// Well-formedness: entry names are unique keys and tallies are never
    /// negative.
    pub open spec fn wf(self) -> bool {
        names_unique(self.coffes) && counters_ok(self.coffes)
    }
}

/// The contract state with no entries and no votes.
pub open spec fn empty_contract() -> ContractView {
    ContractView { coffes: Seq::empty(), votes: Map::empty() }
}

/// The candidate entry `c` as it is stored: its owner overwritten with the
/// registering caller's identity, every other field kept.
pub open spec fn registered(c: CoffeView, account: Seq<char>) -> CoffeView {
    CoffeView { account_id: Some(account), ..c }
}

/// The state after registering candidate `c` for caller `account`: the stored
/// entry replaces a prior entry of the same name, else is appended; votes are
/// untouched.
pub open spec fn register_spec(s: ContractView, c: CoffeView, account: Seq<char>) -> ContractView {
    let stored = registered(c, account);
    if s.has_coffe(c.name) {
        ContractView { coffes: s.coffes.update(s.coffe_index(c.name), stored), ..s }
    } else {
        ContractView { coffes: s.coffes.push(stored), ..s }
    }
}

/// The entry `c` with the tally selected by `choice` incremented by exactly
/// one.
pub open spec fn bump(c: CoffeView, choice: Choice) -> CoffeView {
    match choice {
        Choice::Like => CoffeView { number_of_like: c.number_of_like + 1, ..c },
        Choice::Dislike => CoffeView { number_of_dislike: c.number_of_dislike + 1, ..c },
    }
}

/// The tally selected by `choice` has room for one more vote in the stored
/// counter.
pub open spec fn can_tally(c: CoffeView, choice: Choice) -> bool {
    match choice {
        Choice::Like => c.number_of_like < i8::MAX,
        Choice::Dislike => c.number_of_dislike < i8::MAX,
    }
}

/// The sum of an entry's two tallies.
pub open spec fn counter_sum(c: CoffeView) -> int {
    c.number_of_like + c.number_of_dislike
}

/// The state after caller `account` votes `choice` on the entry keyed by
/// `name`: when the entry exists, its tally is incremented and the caller's
/// vote record is replaced; when it does not, the state is unchanged.
pub open spec fn vote_spec(
    s: ContractView,
    name: Seq<char>,
    choice: Choice,
    account: Seq<char>,
) -> ContractView {
    if s.has_coffe(name) {
        ContractView {
            coffes: s.coffes.update(s.coffe_index(name), bump(s.coffe_at(name), choice)),
            votes: s.votes.insert(account, (VoteView { coffe_name: name, choice })),
        }
    } else {
        s
    }
}

/// The entry a read-one operation returns: the stored entry keyed by `name`,
/// if any.
pub open spec fn get_spec(s: ContractView, name: Seq<char>) -> Option<CoffeView> {
    if s.has_coffe(name) {
        Some(s.coffe_at(name))
    } else {
        None
    }
}

/// The exclusive end of the page `[skip, ..)` under `limit`: `skip + limit`
/// clipped to the entry count, or the count itself when no limit was given.
pub open spec fn page_end(count: int, skip: int, limit: Option<u64>) -> int {
    match limit {
        None => count,
        Some(l) => if skip + l <= count {
            skip + l
        } else {
            count
        },
    }
}

/// With unique names, an index whose entry carries `name` is the one position
/// `coffe_index` denotes.
pub proof fn lemma_index_unique(s: ContractView, name: Seq<char>, i: int)
    requires
        names_unique(s.coffes),
        0 <= i < s.coffes.len(),
        s.coffes[i].name == name,
    ensures
        s.has_coffe(name),
        s.coffe_index(name) == i,
        s.coffe_at(name) == s.coffes[i],
{
    assert(s.has_coffe(name));
    let j = s.coffe_index(name);
    assert(0 <= j < s.coffes.len() && s.coffes[j].name == name);
    if j < i {
        assert(s.coffes[j].name != s.coffes[i].name);
    }
    if i < j {
        assert(s.coffes[i].name != s.coffes[j].name);
    }
}

/// The registry-and-voting ledger: an ordered, key-unique entry store and a
/// per-voter vote store.  The host resolves the caller identity and persists
/// the state; every operation here takes the identity as a plain value.
pub struct Contract {
    coffe: Vec<Coffe>,
    votes: Vec<(String, Vote)>,
}

impl View for Contract {
    type V = ContractView;

    closed spec fn view(&self) -> ContractView {
        ContractView { coffes: coffe_views(self.coffe@), votes: votes_map(self.votes@) }
    }
}

impl Contract {
    /// Well-formedness of the representation: the view is well-formed and the
    /// vote store holds at most one record per voter identity.
    pub closed spec fn wf(&self) -> bool {
        self@.wf() && vote_keys_distinct(self.votes@)
    }

    /// A well-formed contract has a well-formed view.
    pub proof fn lemma_wf_view(&self)
        requires
            self.wf(),
        ensures
            self@.wf(),
    {
    }

    /// The position of the entry named `name` in the entry store, scanning in
    /// storage order.
    fn find_coffe(&self, name: &String) -> (r: Option<usize>)
        ensures
            match r {
                Some(i) => i < self@.coffes.len() && self@.coffes[i as int].name == name@,
                None => !self@.has_coffe(name@),
            },
    {
        let n = self.coffe.len();
        let mut i: usize = 0;
        while i < n
            invariant
                i <= n,
                n == self.coffe.len(),
                forall|j: int| 0 <= j < i ==> self@.coffes[j].name != name@,
            decreases n - i,
        {
            if self.coffe[i].name == *name {
                return Some(i);
            }
            i = i + 1;
        }
        None
    }

    /// The position of the record for voter `account_id` in the vote store.
    fn find_vote(&self, account_id: &String) -> (r: Option<usize>)
        ensures
            match r {
                Some(i) => i < self.votes@.len() && self.votes@[i as int].0@ == account_id@,
                None => forall|j: int|
                    0 <= j < self.votes@.len() ==> self.votes@[j].0@ != account_id@,
            },
    {
        let n = self.votes.len();
        let mut i: usize = 0;
        while i < n
            invariant
                i <= n,
                n == self.votes.len(),
                forall|j: int| 0 <= j < i ==> self.votes@[j].0@ != account_id@,
            decreases n - i,
        {
            if self.votes[i].0 == *account_id {
                return Some(i);
            }
            i = i + 1;
        }
        None
    }

    /// Unconditional upsert into the vote store: replaces any prior vote for
    /// the identity, else appends a fresh record.
    fn upsert_vote(&mut self, account_id: String, vote_rec: Vote)
        requires
            vote_keys_distinct(old(self).votes@),
        ensures
            vote_keys_distinct(final(self).votes@),
            final(self).coffe == old(self).coffe,
            votes_map(final(self).votes@) == votes_map(old(self).votes@).insert(
                account_id@,
                vote_rec@,
            ),
    {
        let ghost aid = account_id@;
        let ghost vv = vote_rec@;
        match self.find_vote(&account_id) {
            Some(i) => {
                let ghost s0 = self.votes@;
                self.votes[i] = (account_id, vote_rec);
                proof {
                    assert(self.votes@ == s0.update(i as int, self.votes@[i as int]));
                    assert(self.votes@[i as int].0@ == aid && self.votes@[i as int].1@ == vv);
                    lemma_votes_map_update(s0, i as int, self.votes@[i as int]);
                    assert(vote_keys_distinct(self.votes@));
                }
            },
            None => {
                let ghost s0 = self.votes@;
                self.votes.push((account_id, vote_rec));
                proof {
                    assert(self.votes@ == s0.push(self.votes@[s0.len() as int]));
                    lemma_votes_map_push(s0, self.votes@[s0.len() as int]);
                    assert(vote_keys_distinct(self.votes@));
                }
            },
        }
    }

    /// Register the candidate entry under its name for the caller
    /// `account_id`: the stored entry carries the caller as owner and
    /// replaces any prior entry of the same name; the returned entry is the
    /// stored one, as confirmation.  The candidate's tallies must not be
    /// negative, so that the store's counter invariant is kept.
    pub fn add_coffe(&mut self, coffe: Coffe, account_id: String) -> (r: Coffe)
        requires
            old(self).wf(),
            coffe.number_of_like >= 0,
            coffe.number_of_dislike >= 0,
        ensures
            final(self).wf(),
            final(self)@ == register_spec(old(self)@, coffe@, account_id@),
            r@ == registered(coffe@, account_id@),
    {
        let ghost cv0 = coffe@;
        let ghost aid = account_id@;
        let mut c = coffe;
        c.account_id = Some(account_id);
        proof {
            assert(c@ =~= registered(cv0, aid));
        }
        let stored = c.clone();
        match self.find_coffe(&c.name) {
            Some(i) => {
                proof {
                    lemma_index_unique(self@, c.name@, i as int);
                }
                self.coffe[i] = stored;
                proof {
                    let s0 = old(self)@;
                    assert(self@.coffes =~= s0.coffes.update(
                        s0.coffe_index(cv0.name),
                        registered(cv0, aid),
                    ));
                    assert(self@ =~= register_spec(s0, cv0, aid));
                    assert(names_unique(self@.coffes));
                    assert(counters_ok(self@.coffes));
                }
            },
            None => {
                self.coffe.push(stored);
                proof {
                    let s0 = old(self)@;
                    assert(self@.coffes =~= s0.coffes.push(registered(cv0, aid)));
                    assert(self@ =~= register_spec(s0, cv0, aid));
                    assert(names_unique(self@.coffes));
                    assert(counters_ok(self@.coffes));
                }
            },
        }
        c
    }

    /// Cast `choice` on the entry named `name` for the caller `account_id`:
    /// increments the matching tally, replaces the caller's stored vote, and
    /// returns the vote record; fails with `NotFound`, leaving the state
    /// unchanged, exactly when no entry carries `name`.  The targeted tally
    /// must have room in its machine counter for one more vote.
    pub fn vote(&mut self, name: String, choice: Choice, account_id: String) -> (r: Result<
        Vote,
        CoffeError,
    >)
        requires
            old(self).wf(),
            old(self)@.has_coffe(name@) ==> can_tally(old(self)@.coffe_at(name@), choice),
        ensures
            final(self).wf(),
            final(self)@ == vote_spec(old(self)@, name@, choice, account_id@),
            r is Ok <==> old(self)@.has_coffe(name@),
            r matches Ok(v) ==> v@ == (VoteView { coffe_name: name@, choice: choice }),
            r matches Err(e) ==> e == CoffeError::NotFound && *final(self) == *old(self),
    {
        let ghost nm = name@;
        let ghost aid = account_id@;
        match self.find_coffe(&name) {
            None => Err(CoffeError::NotFound),
            Some(i) => {
                proof {
                    lemma_index_unique(self@, nm, i as int);
                }
                let mut c = self.coffe[i].clone();
                match choice {
                    Choice::Like => {
                        c.number_of_like = c.number_of_like + 1;
                    },
                    Choice::Dislike => {
                        c.number_of_dislike = c.number_of_dislike + 1;
                    },
                }
                proof {
                    assert(c@ =~= bump(old(self)@.coffe_at(nm), choice));
                }
                let vote_rec = Vote { coffe_name: name, choice };
                let returned = vote_rec.clone();
                self.upsert_vote(account_id, vote_rec);
                self.coffe[i] = c;
                proof {
                    let s0 = old(self)@;
                    assert(self@.coffes =~= s0.coffes.update(
                        s0.coffe_index(nm),
                        bump(s0.coffe_at(nm), choice),
                    ));
                    assert(self@.votes == s0.votes.insert(
                        aid,
                        (VoteView { coffe_name: nm, choice: choice }),
                    ));
                    assert(self@ =~= vote_spec(s0, nm, choice, aid));
                    assert(names_unique(self@.coffes));
                    assert(counters_ok(self@.coffes));
                }
                Ok(returned)
            },
        }
    }

    /// Read the entry named `name`; fails with `NotFound` exactly when it is
    /// absent.  No side effects.
    pub fn get_coffe(&self, name: String) -> (r: Result<Coffe, CoffeError>)
        requires
            self.wf(),
        ensures
            self@.has_coffe(name@) ==> (r matches Ok(c) && c@ == self@.coffe_at(name@)),
            !self@.has_coffe(name@) ==> r == Err::<Coffe, CoffeError>(CoffeError::NotFound),
    {
        match self.find_coffe(&name) {
            Some(i) => {
                proof {
                    lemma_index_unique(self@, name@, i as int);
                }
                Ok(self.coffe[i].clone())
            },
            None => Err(CoffeError::NotFound),
        }
    }

    /// Read the current vote of voter `account_id`, if any.  The vote store's
    /// read capability; no public operation composes it.
    pub fn get_vote(&self, account_id: String) -> (r: Option<Vote>)
        requires
            self.wf(),
        ensures
            match r {
                Some(v) => self@.votes.contains_key(account_id@) && v@ == self@.votes[account_id@],
                None => !self@.votes.contains_key(account_id@),
            },
    {
        match self.find_vote(&account_id) {
            Some(i) => {
                proof {
                    lemma_votes_map_index(self.votes@, i as int, account_id@);
                }
                Some(self.votes[i].1.clone())
            },
            None => {
                proof {
                    lemma_votes_map_contains(self.votes@, account_id@);
                }
                None
            },
        }
    }

    /// Read the page of entries `[skip, skip + limit)` in storage order,
    /// clipped to the available count; `limit` absent means unbounded.
    /// Fails with `InvalidArgument` exactly when a zero limit is supplied,
    /// else with `OutOfRange` exactly when `skip` is not strictly below the
    /// entry count.  No side effects.
    pub fn get_coffes(&self, skip: u64, limit: Option<u64>) -> (r: Result<Vec<Coffe>, CoffeError>)
        requires
            self.wf(),
        ensures
            r is Ok <==> (limit != Some(0u64) && (skip as int) < self@.coffes.len()),
            limit == Some(0u64) ==> r == Err::<Vec<Coffe>, CoffeError>(CoffeError::InvalidArgument),
            (limit != Some(0u64) && (skip as int) >= self@.coffes.len()) ==> r == Err::<
                Vec<Coffe>,
                CoffeError,
            >(CoffeError::OutOfRange),
            r matches Ok(page) ==> coffe_views(page@) == self@.coffes.subrange(
                skip as int,
                page_end(self@.coffes.len() as int, skip as int, limit),
            ),
    {
        let (has_limit, l): (bool, u64) = match limit {
            None => (false, 0u64),
            Some(v) => (true, v),
        };
        if has_limit && l == 0 {
            return Err(CoffeError::InvalidArgument);
        }
        let count: usize = self.coffe.len();
        if skip >= count as u64 {
            return Err(CoffeError::OutOfRange);
        }
        let skip_us: usize = skip as usize;
        let mut out: Vec<Coffe> = Vec::new();
        let mut i: usize = skip_us;
        while i < count && (!has_limit || ((i - skip_us) as u64) < l)
            invariant
                skip_us <= i <= count,
                skip_us == skip as int,
                count == self.coffe.len(),
                has_limit ==> i - skip_us <= l,
                coffe_views(out@) == self@.coffes.subrange(skip_us as int, i as int),
            decreases count - i,
        {
            let item = self.coffe[i].clone();
            let ghost prev = out@;
            out.push(item);
            i = i + 1;
            proof {
                assert(out@ == prev.push(out@.last()));
                assert(out@.last() == self.coffe@[i - 1]);
                let lhs = coffe_views(out@);
                let rhs = self@.coffes.subrange(skip_us as int, i as int);
                assert(lhs.len() == out@.len());
                assert(out@.len() == prev.len() + 1);
                assert(coffe_views(prev).len() == prev.len());
                assert(coffe_views(prev) == self@.coffes.subrange(skip_us as int, i - 1));
                assert(self@.coffes.subrange(skip_us as int, i - 1).len() == i - 1 - skip_us);
                assert(rhs.len() == i - skip_us);
                assert(lhs.len() == rhs.len());
                assert forall|j: int| 0 <= j < lhs.len() implies lhs[j] == rhs[j] by {
                    assert(lhs[j] == out@[j]@);
                    if j < prev.len() {
                        assert(out@[j] == prev[j]);
                        assert(coffe_views(prev)[j] == prev[j]@);
                        assert(coffe_views(prev) == self@.coffes.subrange(skip_us as int, i - 1));
                        assert(rhs[j] == self@.coffes[skip_us + j]);
                        assert(self@.coffes.subrange(skip_us as int, i - 1)[j] == self@.coffes[
                            skip_us + j
                        ]);
                    } else {
                        assert(j == prev.len());
                        assert(out@[j] == out@.last());
                        assert(rhs[j] == self@.coffes[i - 1]);
                        assert(self@.coffes[i - 1] == self.coffe@[i - 1]@);
                    }
                }
                assert(lhs =~= rhs);
            }
        }
        proof {
            assert(page_end(self@.coffes.len() as int, skip as int, limit) == i as int);
        }
        Ok(out)
    }
}

impl Contract {
    /// The stored entries in storage order, as plain values for the host to
    /// persist.
    pub fn entries(&self) -> (r: &Vec<Coffe>)
        ensures
            coffe_views(r@) == self@.coffes,
    {
        &self.coffe
    }

    /// The vote records in storage order, as plain values for the host to
    /// persist.
    pub fn vote_records(&self) -> (r: &Vec<(String, Vote)>)
        requires
            self.wf(),
        ensures
            votes_map(r@) == self@.votes,
            vote_keys_distinct(r@),
    {
        &self.votes
    }

    /// Rebuild a contract from the plain state the host loaded before the
    /// call: succeeds exactly when the entry names are unique keys, no tally
    /// is negative, and the vote records hold at most one vote per voter.
    pub fn from_parts(coffes: Vec<Coffe>, votes: Vec<(String, Vote)>) -> (r: Option<Contract>)
        ensures
            r is Some <==> (names_unique(coffe_views(coffes@)) && counters_ok(
                coffe_views(coffes@),
            ) && vote_keys_distinct(votes@)),
            r matches Some(c) ==> c.wf() && c@.coffes == coffe_views(coffes@) && c@.votes
                == votes_map(votes@),
    {
        if !check_names_unique(&coffes) {
            return None;
        }
        if !check_counters(&coffes) {
            return None;
        }
        if !check_vote_keys(&votes) {
            return None;
        }
        Some(Contract { coffe: coffes, votes })
    }
}

/// Whether the entry names in `coffes` are pairwise distinct.
fn check_names_unique(coffes: &Vec<Coffe>) -> (r: bool)
    ensures
        r == names_unique(coffe_views(coffes@)),
{
    let n = coffes.len();
    let mut i: usize = 0;
    while i < n
        invariant
            i <= n,
            n == coffes.len(),
            forall|a: int, b: int|
                0 <= a < b < i ==> coffe_views(coffes@)[a].name != coffe_views(coffes@)[b].name,
        decreases n - i,
    {
        let mut j: usize = 0;
        while j < i
            invariant
                j <= i < n,
                n == coffes.len(),
                forall|a: int, b: int|
                    0 <= a < b < i ==> coffe_views(coffes@)[a].name != coffe_views(
                        coffes@,
                    )[b].name,
                forall|a: int|
                    0 <= a < j ==> coffe_views(coffes@)[a].name != coffe_views(coffes@)[i as int].name,
            decreases i - j,
        {
            if coffes[j].name == coffes[i].name {
                proof {
                    assert(coffe_views(coffes@)[j as int].name == coffe_views(
                        coffes@,
                    )[i as int].name);
                    assert(!names_unique(coffe_views(coffes@)));
                }
                return false;
            }
            j = j + 1;
        }
        i = i + 1;
    }
    true
}

/// Whether no tally in `coffes` is negative.
fn check_counters(coffes: &Vec<Coffe>) -> (r: bool)
    ensures
        r == counters_ok(coffe_views(coffes@)),
{
    let n = coffes.len();
    let mut i: usize = 0;
    while i < n
        invariant
            i <= n,
            n == coffes.len(),
            forall|a: int|
                0 <= a < i ==> coffe_views(coffes@)[a].number_of_like >= 0 && coffe_views(
                    coffes@,
                )[a].number_of_dislike >= 0,
        decreases n - i,
    {
        if coffes[i].number_of_like < 0 || coffes[i].number_of_dislike < 0 {
            proof {
                assert(coffe_views(coffes@)[i as int] == coffes@[i as int]@);
                assert(!counters_ok(coffe_views(coffes@)));
            }
            return false;
        }
        i = i + 1;
    }
    true
}

/// Whether the voter identities in `votes` are pairwise distinct.
fn check_vote_keys(votes: &Vec<(String, Vote)>) -> (r: bool)
    ensures
        r == vote_keys_distinct(votes@),
{
    let n = votes.len();
    let mut i: usize = 0;
    while i < n
        invariant
            i <= n,
            n == votes.len(),
            forall|a: int, b: int| 0 <= a < b < i ==> votes@[a].0@ != votes@[b].0@,
        decreases n - i,
    {
        let mut j: usize = 0;
        while j < i
            invariant
                j <= i < n,
                n == votes.len(),
                forall|a: int, b: int| 0 <= a < b < i ==> votes@[a].0@ != votes@[b].0@,
                forall|a: int| 0 <= a < j ==> votes@[a].0@ != votes@[i as int].0@,
            decreases i - j,
        {
            if votes[j].0 == votes[i].0 {
                return false;
            }
            j = j + 1;
        }
        i = i + 1;
    }
    true
}

impl Default for Contract {
    /// The empty ledger: no entries, no votes.
    fn default() -> (r: Self)
        ensures
            r.wf(),
            r@ == empty_contract(),
    {
        let r = Contract { coffe: Vec::new(), votes: Vec::new() };
        proof {
            assert(r@ =~= empty_contract());
        }
        r
    }
}

} // verus!
