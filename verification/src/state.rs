//! The contract state as it is stored: the poll registry, the poll counter,
//! the receipt ledger and the private tallies.

use vstd::prelude::*;
use crate::address::Address;
use crate::audit::check_poll;
use crate::model::poll_consistent;
use crate::model::Receipt;
use crate::model::StateView;
use crate::poll::Poll;
use crate::sorted_vec_map::lemma_keys_at_least_position;
use crate::sorted_vec_map::lemma_keys_at_most_position;
use crate::sorted_vec_map::lemma_map_of_entry;
use crate::sorted_vec_map::map_of;
use crate::sorted_vec_map::strictly_increasing;
use crate::sorted_vec_map::MapKey;
use crate::sorted_vec_map::SortedVecMap;

verus! {

/// The polls of a registry as mathematical values.
pub open spec fn polls_view(polls: Map<u64, Poll>) -> Map<u64, crate::model::PollView> {
    polls.map_values(|poll: Poll| poll@)
}

/// The rows of a table of maps as mathematical maps.
pub open spec fn rows_view<K: MapKey, V>(rows: Map<u64, SortedVecMap<K, V>>) -> Map<
    u64,
    Map<K, V>,
> {
    rows.map_values(|row: SortedVecMap<K, V>| row@)
}

/// Storing a poll stores its view.
pub proof fn lemma_polls_view_insert(polls: Map<u64, Poll>, id: u64, poll: Poll)
    ensures
        polls_view(polls.insert(id, poll)) == polls_view(polls).insert(id, poll@),
{
    assert(polls_view(polls.insert(id, poll)) =~= polls_view(polls).insert(id, poll@));
}

/// Taking a poll out takes its view out.
pub proof fn lemma_polls_view_remove(polls: Map<u64, Poll>, id: u64)
    ensures
        polls_view(polls.remove(id)) == polls_view(polls).remove(id),
{
    assert(polls_view(polls.remove(id)) =~= polls_view(polls).remove(id));
}

/// Storing a row stores its view.
pub proof fn lemma_rows_view_insert<K: MapKey, V>(
    rows: Map<u64, SortedVecMap<K, V>>,
    id: u64,
    row: SortedVecMap<K, V>,
)
    ensures
        rows_view(rows.insert(id, row)) == rows_view(rows).insert(id, row@),
{
    assert(rows_view(rows.insert(id, row)) =~= rows_view(rows).insert(id, row@));
}

/// Taking a row out takes its view out.
pub proof fn lemma_rows_view_remove<K: MapKey, V>(rows: Map<u64, SortedVecMap<K, V>>, id: u64)
    ensures
        rows_view(rows.remove(id)) == rows_view(rows).remove(id),
{
    assert(rows_view(rows.remove(id)) =~= rows_view(rows).remove(id));
}

/// The whole state of the contract. Its fields can be read through the
/// methods below; only the contract's operations produce new states, and
/// every state they produce is valid.
#[derive(Debug)]
pub struct PartiVotesState {
    /// The deployer. No operation consults it.
    pub(crate) owner: Address,
    /// The poll registry, keyed by poll identifier.
    pub(crate) polls: SortedVecMap<u64, Poll>,
    /// The identifier that the next poll gets.
    pub(crate) poll_counter: u64,
    /// The receipt ledger: for each poll, who voted and with what receipt.
    pub(crate) votes: SortedVecMap<u64, SortedVecMap<Address, Receipt>>,
    /// The private tallies: for each poll, the count of each option.
    pub(crate) private_vote_counts: SortedVecMap<u64, SortedVecMap<u32, u64>>,
}

/// The fields of a state as plain data: what is stored when a state is put
/// away, and what comes back when it is read again. Anyone can make such a
/// value, so it need not be valid.
#[derive(Debug, PartialEq, Eq)]
pub struct StateParts {
    pub owner: Address,
    pub polls: SortedVecMap<u64, Poll>,
    pub poll_counter: u64,
    pub votes: SortedVecMap<u64, SortedVecMap<Address, Receipt>>,
    pub private_vote_counts: SortedVecMap<u64, SortedVecMap<u32, u64>>,
}

impl View for StateParts {
    type V = StateView;

    open spec fn view(&self) -> StateView {
        StateView {
            owner: self.owner,
            polls: polls_view(self.polls@),
            poll_counter: self.poll_counter,
            votes: rows_view(self.votes@),
            private_vote_counts: rows_view(self.private_vote_counts@),
        }
    }
}

impl View for PartiVotesState {
    type V = StateView;

    open(crate) spec fn view(&self) -> StateView {
        StateView {
            owner: self.owner,
            polls: polls_view(self.polls@),
            poll_counter: self.poll_counter,
            votes: rows_view(self.votes@),
            private_vote_counts: rows_view(self.private_vote_counts@),
        }
    }
}

impl PartiVotesState {
    #[verifier::type_invariant]
    pub(crate) open spec fn inv(self) -> bool {
        self@.valid()
    }

    /// Takes the state apart into its fields.
    pub fn into_parts(self) -> (parts: StateParts)
        ensures
            parts@ == self@,
            parts@.valid(),
    {
        proof {
            use_type_invariant(&self);
        }
        let PartiVotesState { owner, polls, poll_counter, votes, private_vote_counts } = self;
        StateParts { owner, polls, poll_counter, votes, private_vote_counts }
    }

    /// Puts a state together from its fields, if they make up a valid state:
    /// the fields are tested against the whole invariant, and a state comes
    /// back if and only if they meet it.
    pub fn from_parts(parts: StateParts) -> (state: Option<PartiVotesState>)
        ensures
            state is Some <==> parts@.valid(),
            state matches Some(s) ==> s@ == parts@,
    {
        let count = parts.polls.len();
        let ghost keys = parts.polls.ordered_keys();
        let ghost values = parts.polls.ordered_values();
        proof {
            parts.polls.lemma_ordered_entries();
            assert(parts@.polls.dom() =~= parts.polls@.dom());
            if parts@.valid() {
                assert forall|j: int| 0 <= j < keys.len() implies keys[j] < keys.len() by {
                    lemma_map_of_entry(keys, values, j);
                    assert(parts@.polls.contains_key(keys[j]));
                }
            }
        }
        if count as u64 != parts.poll_counter {
            return None;
        }
        let mut i: usize = 0;
        while i < count
            invariant
                i <= count,
                count == keys.len(),
                count == values.len(),
                count == parts.poll_counter,
                keys == parts.polls.ordered_keys(),
                values == parts.polls.ordered_values(),
                strictly_increasing(keys),
                parts.polls@ == map_of(keys, values),
                parts@.valid() ==> forall|j: int| 0 <= j < keys.len() ==> keys[j] < keys.len(),
                forall|j: int| 0 <= j < i ==> keys[j] == j,
                forall|j: int|
                    0 <= j < i ==> (#[trigger] values[j]).id == j && poll_consistent(
                        values[j]@,
                        parts@.receipts_of(j as u64),
                        parts@.private_tally_of(j as u64),
                    ),
            decreases count - i,
        {
            let id = parts.polls.key_at(i);
            proof {
                lemma_map_of_entry(keys, values, i as int);
                if parts@.valid() {
                    lemma_keys_at_least_position(keys, i as int);
                    lemma_keys_at_most_position(keys, i as int);
                    assert(parts@.polls.contains_key(id));
                }
            }
            if id != i as u64 {
                return None;
            }
            let poll = parts.polls.value_at(i);
            assert(parts@.polls[id] == poll@);
            if poll.id != id {
                return None;
            }
            if !check_poll(poll, parts.votes.get(&id), parts.private_vote_counts.get(&id)) {
                return None;
            }
            i += 1;
        }
        let rows = parts.votes.len();
        let ghost row_keys = parts.votes.ordered_keys();
        let ghost row_values = parts.votes.ordered_values();
        proof {
            parts.votes.lemma_ordered_entries();
            if parts@.valid() {
                assert forall|id: u64| parts.votes@.contains_key(id) implies id
                    < parts.poll_counter by {
                    assert(parts@.votes.contains_key(id));
                    assert(parts@.polls.contains_key(id));
                }
            }
        }
        let mut j: usize = 0;
        while j < rows
            invariant
                j <= rows,
                rows == row_keys.len(),
                rows == row_values.len(),
                row_keys == parts.votes.ordered_keys(),
                strictly_increasing(row_keys),
                parts.votes@ == map_of(row_keys, row_values),
                parts@.valid() ==> forall|id: u64|
                    parts.votes@.contains_key(id) ==> id < parts.poll_counter,
                forall|k: int| 0 <= k < j ==> row_keys[k] < parts.poll_counter,
            decreases rows - j,
        {
            proof {
                lemma_map_of_entry(row_keys, row_values, j as int);
            }
            if parts.votes.key_at(j) >= parts.poll_counter {
                return None;
            }
            j += 1;
        }
        let tallies = parts.private_vote_counts.len();
        let ghost tally_keys = parts.private_vote_counts.ordered_keys();
        let ghost tally_values = parts.private_vote_counts.ordered_values();
        proof {
            parts.private_vote_counts.lemma_ordered_entries();
            if parts@.valid() {
                assert forall|id: u64| parts.private_vote_counts@.contains_key(id) implies id
                    < parts.poll_counter by {
                    assert(parts@.private_vote_counts.contains_key(id));
                    assert(parts@.polls.contains_key(id));
                }
            }
        }
        let mut k: usize = 0;
        while k < tallies
            invariant
                k <= tallies,
                tallies == tally_keys.len(),
                tallies == tally_values.len(),
                tally_keys == parts.private_vote_counts.ordered_keys(),
                strictly_increasing(tally_keys),
                parts.private_vote_counts@ == map_of(tally_keys, tally_values),
                parts@.valid() ==> forall|id: u64|
                    parts.private_vote_counts@.contains_key(id) ==> id < parts.poll_counter,
                forall|m: int| 0 <= m < k ==> tally_keys[m] < parts.poll_counter,
            decreases tallies - k,
        {
            proof {
                lemma_map_of_entry(tally_keys, tally_values, k as int);
            }
            if parts.private_vote_counts.key_at(k) >= parts.poll_counter {
                return None;
            }
            k += 1;
        }
        proof {
            assert forall|id: u64| parts@.polls.contains_key(id) <==> id < parts.poll_counter by {
                if id < parts.poll_counter {
                    lemma_map_of_entry(keys, values, id as int);
                }
                if parts.polls@.contains_key(id) {
                    let p = keys.index_of(id);
                    assert(keys[p] == p);
                }
            }
            assert forall|id: u64| #[trigger] parts@.polls.contains_key(id) implies parts@.polls[id].id
                == id && poll_consistent(
                parts@.polls[id],
                parts@.receipts_of(id),
                parts@.private_tally_of(id),
            ) by {
                lemma_map_of_entry(keys, values, id as int);
                assert(values[id as int].id == id);
            }
            assert forall|id: u64| #[trigger] parts@.votes.contains_key(id) implies parts@.polls.contains_key(
                id,
            ) by {
                let p = row_keys.index_of(id);
                assert(row_keys[p] < parts.poll_counter);
            }
            assert forall|id: u64| #[trigger]
                parts@.private_vote_counts.contains_key(id) implies parts@.polls.contains_key(id) by {
                let p = tally_keys.index_of(id);
                assert(tally_keys[p] < parts.poll_counter);
            }
        }
        let StateParts { owner, polls, poll_counter, votes, private_vote_counts } = parts;
        Some(PartiVotesState { owner, polls, poll_counter, votes, private_vote_counts })
    }

    /// The deployer of the contract.
    pub fn owner(&self) -> (owner: Address)
        ensures
            owner == self@.owner,
    {
        self.owner
    }

    /// The identifier that the next poll gets, which is also the number of
    /// polls created so far.
    pub fn poll_counter(&self) -> (counter: u64)
        ensures
            counter == self@.poll_counter,
    {
        self.poll_counter
    }

    /// The poll with the given identifier, if there is one.
    pub fn poll(&self, poll_id: u64) -> (poll: Option<&Poll>)
        ensures
            poll is Some == self@.polls.contains_key(poll_id),
            poll matches Some(p) ==> p@ == self@.polls[poll_id],
    {
        self.polls.get(&poll_id)
    }

    /// The receipt that the ledger holds for a voter in a poll, if any.
    pub fn receipt(&self, poll_id: u64, voter: &Address) -> (receipt: Option<Receipt>)
        ensures
            receipt == (if self@.has_voted(poll_id, *voter) {
                Some(self@.receipts_of(poll_id)[*voter])
            } else {
                None
            }),
    {
        match self.votes.get(&poll_id) {
            Some(row) => match row.get(voter) {
                Some(receipt) => Some(*receipt),
                None => None,
            },
            None => None,
        }
    }

    /// The stored private tally of a poll, if a row for it exists.
    pub fn private_tally(&self, poll_id: u64) -> (tally: Option<&SortedVecMap<u32, u64>>)
        ensures
            tally is Some == self@.private_vote_counts.contains_key(poll_id),
            tally matches Some(t) ==> t@ == self@.private_vote_counts[poll_id],
    {
        self.private_vote_counts.get(&poll_id)
    }
}

} // verus!
