//! The record types of the ledger: entries, votes, choices and the errors an
//! operation can surface, together with their mathematical views.

use vstd::prelude::*;

verus! {

/// Which way a vote goes.
#[derive(Clone, Copy, PartialEq, Eq, Structural, Debug)]
pub enum Choice {
    Like,
    Dislike,
}

/// The terminal, caller-visible failures of the ledger's operations.
#[derive(Clone, Copy, PartialEq, Eq, Structural, Debug)]
pub enum CoffeError {
    /// The referenced entry name is absent from the store.
    NotFound,
    /// A page was requested with an explicit limit of zero.
    InvalidArgument,
    /// A page was requested starting at or past the number of stored entries.
    OutOfRange,
}

/// Namespace tags for the two persisted mappings (entries and votes), kept
/// separate so that entry keys and voter keys can never collide in the host's
/// storage.
#[derive(Clone, Copy, PartialEq, Eq, Structural, Debug)]
pub enum StorageKey {
    Coffe,
    Vote,
}

/// One registrable item: a named, owned record with like/dislike counters.
#[derive(Debug)]
pub struct Coffe {
    /// The identity of the actor that registered the entry; set exactly once
    /// at registration, immutable thereafter.
    pub account_id: Option<String>,
    /// The unique key of the entry, immutable after creation.
    pub name: String,
    /// Opaque display string.
    pub description: String,
    /// Opaque display string.
    pub image: String,
    /// Running tally of like votes; never negative.
    pub number_of_like: i8,
    /// Running tally of dislike votes; never negative.
    pub number_of_dislike: i8,
}

/// The mathematical value of a [`Coffe`].
#[verifier::ext_equal]
pub struct CoffeView {
    pub account_id: Option<Seq<char>>,
    pub name: Seq<char>,
    pub description: Seq<char>,
    pub image: Seq<char>,
    pub number_of_like: int,
    pub number_of_dislike: int,
}

impl View for Coffe {
    type V = CoffeView;

    open spec fn view(&self) -> CoffeView {
        CoffeView {
            account_id: match self.account_id {
                Some(a) => Some(a@),
                None => None,
            },
            name: self.name@,
            description: self.description@,
            image: self.image@,
            number_of_like: self.number_of_like as int,
            number_of_dislike: self.number_of_dislike as int,
        }
    }
}

impl Clone for Coffe {
    fn clone(&self) -> (r: Self)
        ensures
            r == *self,
    {
        Coffe {
            account_id: match &self.account_id {
                Some(a) => Some(a.clone()),
                None => None,
            },
            name: self.name.clone(),
            description: self.description.clone(),
            image: self.image.clone(),
            number_of_like: self.number_of_like,
            number_of_dislike: self.number_of_dislike,
        }
    }
}

/// One voter's current standing vote for one entry.
#[derive(Debug)]
pub struct Vote {
    /// The key of the entry this vote targets.
    pub coffe_name: String,
    /// The choice cast.
    pub choice: Choice,
}

/// The mathematical value of a [`Vote`].
#[verifier::ext_equal]
pub struct VoteView {
    pub coffe_name: Seq<char>,
    pub choice: Choice,
}

impl View for Vote {
    type V = VoteView;

    open spec fn view(&self) -> VoteView {
        VoteView { coffe_name: self.coffe_name@, choice: self.choice }
    }
}

impl Clone for Vote {
    fn clone(&self) -> (r: Self)
        ensures
            r == *self,
    {
        Vote { coffe_name: self.coffe_name.clone(), choice: self.choice }
    }
}

} // verus!
