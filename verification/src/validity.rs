//! Every transaction keeps the contract state valid.

use vstd::prelude::*;
use crate::address::Address;
use crate::model::ballot_refusal;
use crate::model::bump;
use crate::model::count_of;
use crate::model::create_poll_next;
use crate::model::create_poll_refusal;
use crate::model::end_poll_next;
use crate::model::end_poll_refusal;
use crate::model::initial_state;
use crate::model::new_poll;
use crate::model::poll_consistent;
use crate::model::private_vote_next;
use crate::model::public_vote_next;
use crate::model::vote_refusal;
use crate::model::voters_for;
use crate::model::zero_tally;
use crate::model::MAX_OPTIONS;
use crate::model::Receipt;
use crate::model::StateView;
use crate::tally::lemma_count_within_total;
use crate::tally::lemma_no_receipts_for_option;
use crate::tally::lemma_no_receipts_no_voters;
use crate::tally::lemma_record_for_option;
use crate::tally::lemma_record_private;
use crate::tally::lemma_record_public;
use crate::tally::lemma_total_after_insert;
use crate::tally::lemma_voters_bounded;
use crate::tally::lemma_zero_tally_total;

verus! {

/// A freshly deployed contract is in a valid state.
pub proof fn lemma_initial_state_valid(owner: Address)
    ensures
        initial_state(owner).valid(),
{
    assert(initial_state(owner).polls.dom() =~= Set::<u64>::empty());
}

/// An accepted creation keeps the state valid, as long as the counter can
/// still move on and there is an index for each option.
pub proof fn lemma_create_poll_keeps_valid(
    s: StateView,
    creator: Address,
    amount: u64,
    now: u64,
    title: Seq<char>,
    description: Seq<char>,
    options: Seq<Seq<char>>,
    expires_at: u64,
)
    requires
        s.valid(),
        create_poll_refusal(amount, now, title, description, options, expires_at) is None,
        options.len() <= MAX_OPTIONS,
        s.poll_counter < u64::MAX,
    ensures
        create_poll_next(s, creator, now, title, description, options, expires_at).valid(),
{
    let next = create_poll_next(s, creator, now, title, description, options, expires_at);
    let id = s.poll_counter;
    let poll = new_poll(id, creator, title, description, options, now, expires_at);
    assert(!s.polls.contains_key(id));
    assert(next.polls.dom() =~= s.polls.dom().insert(id));
    assert(!s.votes.contains_key(id));
    assert(next.receipts_of(id) =~= Map::<Address, Receipt>::empty());
    assert forall|other: u64| #[trigger] next.polls.contains_key(other) implies poll_consistent(
        next.polls[other],
        next.receipts_of(other),
        next.private_tally_of(other),
    ) by {
        if other == id {
            lemma_zero_tally_total(options.len(), options.len());
            lemma_no_receipts_no_voters();
            assert(next.private_tally_of(id) == zero_tally(options.len()));
            assert forall|i: u32| (i as nat) < options.len() implies poll.public_vote_counts[i] == (
            #[trigger] voters_for(next.receipts_of(id), i)).len() by {
                lemma_no_receipts_for_option(i);
            }
        } else {
            assert(s.polls.contains_key(other));
            assert(poll_consistent(s.polls[other], s.receipts_of(other), s.private_tally_of(other)));
            assert(next.receipts_of(other) == s.receipts_of(other));
            assert(next.private_tally_of(other) == s.private_tally_of(other));
        }
    }
}

/// An accepted public vote keeps the state valid, as long as the count of
/// the chosen option can still grow.
pub proof fn lemma_public_vote_keeps_valid(
    s: StateView,
    voter: Address,
    now: u64,
    poll_id: u64,
    option_index: u32,
)
    requires
        s.valid(),
        vote_refusal(s, voter, now, poll_id, option_index) is None,
        count_of(s.polls[poll_id].public_vote_counts, option_index) < u64::MAX,
    ensures
        public_vote_next(s, voter, poll_id, option_index).valid(),
{
    let next = public_vote_next(s, voter, poll_id, option_index);
    let poll = s.polls[poll_id];
    let n = poll.options.len();
    let row = s.receipts_of(poll_id);
    let count = count_of(poll.public_vote_counts, option_index);
    assert(s.polls.contains_key(poll_id));
    assert(next.polls.dom() =~= s.polls.dom());
    assert(row.dom().finite()) by {
        if !s.votes.contains_key(poll_id) {
            assert(row.dom() =~= Set::<Address>::empty());
        }
    }
    assert forall|other: u64| #[trigger] next.polls.contains_key(other) implies poll_consistent(
        next.polls[other],
        next.receipts_of(other),
        next.private_tally_of(other),
    ) by {
        assert(s.polls.contains_key(other));
        assert(poll_consistent(s.polls[other], s.receipts_of(other), s.private_tally_of(other)));
        if other == poll_id {
            lemma_total_after_insert(poll.public_vote_counts, n, option_index, (count + 1) as u64);
            lemma_record_public(row, voter, option_index);
            assert(next.receipts_of(poll_id) == row.insert(
                voter,
                Receipt::Public { option_index },
            ));
            assert(next.private_tally_of(poll_id) == s.private_tally_of(poll_id));
            assert forall|i: u32| (i as nat) < n implies next.polls[poll_id].public_vote_counts[i]
                == (#[trigger] voters_for(next.receipts_of(poll_id), i)).len() by {
                lemma_record_for_option(row, voter, Receipt::Public { option_index }, i);
                assert(poll.public_vote_counts[i] == voters_for(row, i).len());
            }
        } else {
            assert(next.receipts_of(other) == s.receipts_of(other));
            assert(next.private_tally_of(other) == s.private_tally_of(other));
        }
    }
}

/// An accepted private vote keeps the state valid, as long as the count of
/// the chosen option can still grow.
pub proof fn lemma_private_vote_keeps_valid(
    s: StateView,
    voter: Address,
    now: u64,
    poll_id: u64,
    option_index: u32,
)
    requires
        s.valid(),
        vote_refusal(s, voter, now, poll_id, option_index) is None,
        count_of(s.private_tally_of(poll_id), option_index) < u64::MAX,
    ensures
        private_vote_next(s, voter, poll_id, option_index).valid(),
{
    let next = private_vote_next(s, voter, poll_id, option_index);
    let poll = s.polls[poll_id];
    let n = poll.options.len();
    let row = s.receipts_of(poll_id);
    let tally = s.private_tally_of(poll_id);
    let count = count_of(tally, option_index);
    assert(s.polls.contains_key(poll_id));
    assert(row.dom().finite()) by {
        if !s.votes.contains_key(poll_id) {
            assert(row.dom() =~= Set::<Address>::empty());
        }
    }
    assert(tally.contains_key(option_index));
    assert forall|other: u64| #[trigger] next.polls.contains_key(other) implies poll_consistent(
        next.polls[other],
        next.receipts_of(other),
        next.private_tally_of(other),
    ) by {
        assert(poll_consistent(s.polls[other], s.receipts_of(other), s.private_tally_of(other)));
        if other == poll_id {
            lemma_total_after_insert(tally, n, option_index, (count + 1) as u64);
            lemma_record_private(row, voter);
            assert(next.receipts_of(poll_id) == row.insert(voter, Receipt::Private));
            assert(next.private_tally_of(poll_id) == bump(tally, option_index));
            assert forall|i: u32| (i as nat) < n implies next.polls[poll_id].public_vote_counts[i]
                == (#[trigger] voters_for(next.receipts_of(poll_id), i)).len() by {
                lemma_record_for_option(row, voter, Receipt::Private, i);
                assert(poll.public_vote_counts[i] == voters_for(row, i).len());
            }
        } else {
            assert(next.receipts_of(other) == s.receipts_of(other));
            assert(next.private_tally_of(other) == s.private_tally_of(other));
        }
    }
}

/// Ending a poll keeps the state valid.
pub proof fn lemma_end_poll_keeps_valid(s: StateView, sender: Address, poll_id: u64)
    requires
        s.valid(),
        end_poll_refusal(s, sender, poll_id) is None,
    ensures
        end_poll_next(s, poll_id).valid(),
{
    let next = end_poll_next(s, poll_id);
    assert(s.polls.contains_key(poll_id));
    assert(next.polls.dom() =~= s.polls.dom());
    assert forall|other: u64| #[trigger] next.polls.contains_key(other) implies poll_consistent(
        next.polls[other],
        next.receipts_of(other),
        next.private_tally_of(other),
    ) by {
        assert(poll_consistent(s.polls[other], s.receipts_of(other), s.private_tally_of(other)));
        assert(next.receipts_of(other) == s.receipts_of(other));
        assert(next.private_tally_of(other) == s.private_tally_of(other));
    }
}

/// In a valid state no count of a poll exceeds the number of entries in the
/// poll's ledger row: neither a public count nor a private one.
pub proof fn lemma_counts_within_receipts(s: StateView, now: u64, poll_id: u64, option_index: u32)
    requires
        s.valid(),
        ballot_refusal(s, now, poll_id, option_index) is None,
    ensures
        s.receipts_of(poll_id).dom().finite(),
        count_of(s.polls[poll_id].public_vote_counts, option_index) <= s.receipts_of(
            poll_id,
        ).dom().len(),
        count_of(s.private_tally_of(poll_id), option_index) <= s.receipts_of(poll_id).dom().len(),
{
    let poll = s.polls[poll_id];
    let n = poll.options.len();
    let row = s.receipts_of(poll_id);
    assert(s.polls.contains_key(poll_id));
    assert(poll_consistent(s.polls[poll_id], s.receipts_of(poll_id), s.private_tally_of(poll_id)));
    assert(row.dom().finite()) by {
        if !s.votes.contains_key(poll_id) {
            assert(row.dom() =~= Set::<Address>::empty());
        }
    }
    lemma_voters_bounded(row);
    lemma_count_within_total(poll.public_vote_counts, n, option_index);
    lemma_count_within_total(s.private_tally_of(poll_id), n, option_index);
    assert(poll.public_vote_counts.contains_key(option_index));
    assert(s.private_tally_of(poll_id).contains_key(option_index));
}

} // verus!
