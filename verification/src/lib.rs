//! A small registry-and-voting ledger.
//!
//! Named items ("coffes") are registered by an actor and other actors cast
//! like/dislike votes on them, updating running tally counters.  The crate is
//! the state-transition core alone: the data model, the invariants that hold
//! across mutations, and the read/write contracts exposed to callers.  The
//! host that authenticates callers and persists state hands every operation a
//! plain caller-identity string and owns everything outside these types.

use vstd::prelude::*;

mod contract;
mod laws;
mod types;
mod vote_map;

pub use contract::Contract;
pub use contract::ContractView;
pub use contract::bump;
pub use contract::can_tally;
pub use contract::coffe_views;
pub use contract::counter_sum;
pub use contract::counters_ok;
pub use contract::empty_contract;
pub use contract::get_spec;
pub use contract::lemma_index_unique;
pub use contract::names_unique;
pub use contract::page_end;
pub use contract::register_spec;
pub use contract::registered;
pub use contract::vote_spec;
pub use laws::apply_votes;
pub use laws::lemma_register_then_get;
pub use laws::lemma_vote_step;
pub use laws::lemma_vote_tally;
pub use laws::lemma_vote_tally_from_zero;
pub use types::Choice;
pub use types::Coffe;
pub use types::CoffeError;
pub use types::CoffeView;
pub use types::StorageKey;
pub use types::Vote;
pub use types::VoteView;
pub use vote_map::vote_keys_distinct;
pub use vote_map::votes_map;

verus! {

} // verus!
