//! What holds of the contract whatever transactions come: the laws that the
//! operations obey together.

use vstd::prelude::*;
use crate::address::Address;
use crate::model::ballot_refusal;
use crate::model::count_of;
use crate::model::covers_options;
use crate::model::create_poll_next;
use crate::model::create_poll_refusal;
use crate::model::end_poll_refusal;
use crate::model::poll_consistent;
use crate::model::private_vote_next;
use crate::model::private_vote_refusal;
use crate::model::private_voters;
use crate::model::public_vote_next;
use crate::model::public_voters;
use crate::model::refusal;
use crate::model::step;
use crate::model::tally_total;
use crate::model::vote_refusal;
use crate::model::voters_for;
use crate::model::zero_tally;
use crate::model::ContractError;
use crate::model::MAX_OPTIONS;
use crate::model::Receipt;
use crate::model::StateView;
use crate::model::Transaction;
use crate::tally::lemma_zero_tally_total;
use crate::validity::lemma_create_poll_keeps_valid;
use crate::validity::lemma_end_poll_keeps_valid;
use crate::validity::lemma_private_vote_keeps_valid;
use crate::validity::lemma_public_vote_keeps_valid;

verus! {

/// Every poll of a valid state has at least two options and exactly one
/// public count for each option index, and its public counts sum to the
/// number of public receipts that the ledger holds for it.
pub proof fn lemma_public_tally_counts_receipts(s: StateView, poll_id: u64)
    requires
        s.valid(),
        s.polls.contains_key(poll_id),
    ensures
        s.polls[poll_id].options.len() >= 2,
        covers_options(s.polls[poll_id].public_vote_counts, s.polls[poll_id].options.len()),
        tally_total(s.polls[poll_id].public_vote_counts, s.polls[poll_id].options.len())
            == public_voters(s.receipts_of(poll_id)).len(),
{
    assert(poll_consistent(s.polls[poll_id], s.receipts_of(poll_id), s.private_tally_of(poll_id)));
}

/// The public count of each option of a poll of a valid state is the number
/// of public receipts that the ledger holds for the option in that poll.
pub proof fn lemma_public_count_is_receipts_for_option(s: StateView, poll_id: u64, option_index: u32)
    requires
        s.valid(),
        s.polls.contains_key(poll_id),
        (option_index as nat) < s.polls[poll_id].options.len(),
    ensures
        s.polls[poll_id].public_vote_counts[option_index] == voters_for(
            s.receipts_of(poll_id),
            option_index,
        ).len(),
{
    assert(poll_consistent(s.polls[poll_id], s.receipts_of(poll_id), s.private_tally_of(poll_id)));
}

/// The private counts of every poll of a valid state sum to the number of
/// private receipts that the ledger holds for it.
pub proof fn lemma_private_tally_counts_receipts(s: StateView, poll_id: u64)
    requires
        s.valid(),
        s.polls.contains_key(poll_id),
    ensures
        tally_total(s.private_tally_of(poll_id), s.polls[poll_id].options.len()) == private_voters(
            s.receipts_of(poll_id),
        ).len(),
{
    assert(poll_consistent(s.polls[poll_id], s.receipts_of(poll_id), s.private_tally_of(poll_id)));
}

/// An accepted creation stores the poll as it was asked for, with its
/// options in their order, and leaves every poll with at least two options.
pub proof fn lemma_creation_keeps_two_options(
    s: StateView,
    creator: Address,
    amount: u64,
    now: u64,
    title: Seq<char>,
    description: Seq<char>,
    options: Seq<Seq<char>>,
    expires_at: u64,
)
    requires
        s.valid(),
        create_poll_refusal(amount, now, title, description, options, expires_at) is None,
    ensures
        ({
            let next = create_poll_next(s, creator, now, title, description, options, expires_at);
            &&& next.polls.contains_key(s.poll_counter)
            &&& next.polls[s.poll_counter].options == options
            &&& next.polls[s.poll_counter].title == title
            &&& next.polls[s.poll_counter].description == description
            &&& next.polls[s.poll_counter].creator == creator
            &&& next.polls[s.poll_counter].active
            &&& forall|id: u64| #[trigger]
                next.polls.contains_key(id) ==> next.polls[id].options.len() >= 2
        }),
{
    let next = create_poll_next(s, creator, now, title, description, options, expires_at);
    assert forall|id: u64| #[trigger] next.polls.contains_key(id) implies next.polls[id].options.len()
        >= 2 by {
        if id != s.poll_counter {
            assert(s.polls.contains_key(id));
            assert(poll_consistent(s.polls[id], s.receipts_of(id), s.private_tally_of(id)));
        }
    }
}

/// A new poll starts with a zero count for each of its options, and for
/// nothing else, in both tallies, as long as there is an index for each
/// option.
pub proof fn lemma_created_poll_starts_at_zero(
    s: StateView,
    creator: Address,
    amount: u64,
    now: u64,
    title: Seq<char>,
    description: Seq<char>,
    options: Seq<Seq<char>>,
    expires_at: u64,
)
    requires
        create_poll_refusal(amount, now, title, description, options, expires_at) is None,
        options.len() <= MAX_OPTIONS,
    ensures
        ({
            let next = create_poll_next(s, creator, now, title, description, options, expires_at);
            let public = next.polls[s.poll_counter].public_vote_counts;
            let private = next.private_vote_counts[s.poll_counter];
            &&& next.private_vote_counts.contains_key(s.poll_counter)
            &&& public == zero_tally(options.len())
            &&& private == zero_tally(options.len())
            &&& covers_options(public, options.len())
            &&& forall|i: u32| public.contains_key(i) ==> public[i] == 0
            &&& tally_total(public, options.len()) == 0
        }),
{
    lemma_zero_tally_total(options.len(), options.len());
}

/// The counter and the counts that a transaction raises can still grow.
pub open spec fn has_room(s: StateView, tx: Transaction) -> bool {
    match tx {
        Transaction::CreatePoll { options, .. } => s.poll_counter < u64::MAX && options.len()
            <= MAX_OPTIONS,
        Transaction::PublicVote { poll_id, option_index } => count_of(
            s.polls[poll_id].public_vote_counts,
            option_index,
        ) < u64::MAX,
        Transaction::PrivateVote { poll_id, option_index } => count_of(
            s.private_tally_of(poll_id),
            option_index,
        ) < u64::MAX,
        Transaction::EndPoll { .. } => true,
    }
}

/// A transaction on a valid state, accepted or refused, leads to a valid
/// state, as long as what it raises can still grow.
pub proof fn lemma_step_keeps_valid(s: StateView, sender: Address, amount: u64, now: u64, tx: Transaction)
    requires
        s.valid(),
        has_room(s, tx),
    ensures
        step(s, sender, amount, now, tx).valid(),
{
    if refusal(s, sender, amount, now, tx) is None {
        match tx {
            Transaction::CreatePoll { title, description, options, expires_at } => {
                lemma_create_poll_keeps_valid(
                    s,
                    sender,
                    amount,
                    now,
                    title,
                    description,
                    options,
                    expires_at,
                );
            },
            Transaction::PublicVote { poll_id, option_index } => {
                lemma_public_vote_keeps_valid(s, sender, now, poll_id, option_index);
            },
            Transaction::PrivateVote { poll_id, option_index } => {
                lemma_private_vote_keeps_valid(s, sender, now, poll_id, option_index);
            },
            Transaction::EndPoll { poll_id } => {
                lemma_end_poll_keeps_valid(s, sender, poll_id);
            },
        }
    }
}

/// The registry only grows: whatever transaction comes, a poll stays a poll
/// under its identifier, and nothing but its active flag and its public
/// counts can change.
pub proof fn lemma_polls_are_kept(
    s: StateView,
    sender: Address,
    amount: u64,
    now: u64,
    tx: Transaction,
    poll_id: u64,
)
    requires
        s.valid(),
        s.polls.contains_key(poll_id),
    ensures
        step(s, sender, amount, now, tx).polls.contains_key(poll_id),
        ({
            let before = s.polls[poll_id];
            let after = step(s, sender, amount, now, tx).polls[poll_id];
            &&& after.id == before.id
            &&& after.creator == before.creator
            &&& after.title == before.title
            &&& after.description == before.description
            &&& after.options == before.options
            &&& after.created_at == before.created_at
            &&& after.expires_at == before.expires_at
        }),
{
}

/// No count ever falls: whatever transaction comes, each public and each
/// private count of a poll stays as it is or goes up by one, as long as
/// what the transaction raises can still grow.
pub proof fn lemma_counts_never_fall(
    s: StateView,
    sender: Address,
    amount: u64,
    now: u64,
    tx: Transaction,
    poll_id: u64,
    option_index: u32,
)
    requires
        s.valid(),
        has_room(s, tx),
        s.polls.contains_key(poll_id),
        (option_index as nat) < s.polls[poll_id].options.len(),
    ensures
        ({
            let next = step(s, sender, amount, now, tx);
            let public_before = s.polls[poll_id].public_vote_counts[option_index];
            let public_after = next.polls[poll_id].public_vote_counts[option_index];
            let private_before = s.private_tally_of(poll_id)[option_index];
            let private_after = next.private_tally_of(poll_id)[option_index];
            &&& public_before <= public_after <= public_before + 1
            &&& private_before <= private_after <= private_before + 1
        }),
{
    assert(poll_consistent(s.polls[poll_id], s.receipts_of(poll_id), s.private_tally_of(poll_id)));
}

/// The counter never falls, and it moves by one exactly when a poll is
/// created, which then gets the counter's old value as its identifier.
pub proof fn lemma_identifiers_are_not_reused(
    s: StateView,
    sender: Address,
    amount: u64,
    now: u64,
    tx: Transaction,
)
    requires
        s.valid(),
        has_room(s, tx),
    ensures
        ({
            let next = step(s, sender, amount, now, tx);
            let created = tx is CreatePoll && refusal(s, sender, amount, now, tx) is None;
            &&& created ==> next.poll_counter == s.poll_counter + 1 && !s.polls.contains_key(
                s.poll_counter,
            ) && next.polls.contains_key(s.poll_counter)
            &&& !created ==> next.poll_counter == s.poll_counter && next.polls.dom()
                == s.polls.dom()
        }),
{
    let next = step(s, sender, amount, now, tx);
    let created = tx is CreatePoll && refusal(s, sender, amount, now, tx) is None;
    if !created {
        assert(next.polls.dom() =~= s.polls.dom());
    }
}

/// The ledger only grows: whatever transaction comes, a receipt that the
/// ledger holds stays in it as it is. So a voter never has two receipts for
/// one poll, and never a different one.
pub proof fn lemma_receipts_are_kept(
    s: StateView,
    sender: Address,
    amount: u64,
    now: u64,
    tx: Transaction,
    poll_id: u64,
    voter: Address,
)
    requires
        s.has_voted(poll_id, voter),
    ensures
        step(s, sender, amount, now, tx).has_voted(poll_id, voter),
        step(s, sender, amount, now, tx).receipts_of(poll_id)[voter] == s.receipts_of(
            poll_id,
        )[voter],
{
}

/// Who has voted in a poll cannot vote in it again, in either way: after an
/// accepted public vote every further vote of the voter in the poll is
/// refused, whatever is paid for it, and it is refused as a repeated vote
/// wherever the ballot itself could be taken.
pub proof fn lemma_no_second_vote_after_public_vote(
    s: StateView,
    voter: Address,
    now: u64,
    poll_id: u64,
    option_index: u32,
    later_amount: u64,
    later: u64,
    later_option: u32,
)
    requires
        vote_refusal(s, voter, now, poll_id, option_index) is None,
    ensures
        ({
            let next = public_vote_next(s, voter, poll_id, option_index);
            &&& vote_refusal(next, voter, later, poll_id, later_option) is Some
            &&& private_vote_refusal(next, voter, later_amount, later, poll_id, later_option) is Some
            &&& ballot_refusal(next, later, poll_id, later_option) is None ==> {
                &&& vote_refusal(next, voter, later, poll_id, later_option) == Some(
                    ContractError::AlreadyVoted,
                )
                &&& private_vote_refusal(
                    next,
                    voter,
                    later_amount,
                    later,
                    poll_id,
                    later_option,
                ) == Some(ContractError::AlreadyVoted)
            }
        }),
{
}

/// The same after an accepted private vote.
pub proof fn lemma_no_second_vote_after_private_vote(
    s: StateView,
    voter: Address,
    now: u64,
    poll_id: u64,
    option_index: u32,
    later_amount: u64,
    later: u64,
    later_option: u32,
)
    requires
        vote_refusal(s, voter, now, poll_id, option_index) is None,
    ensures
        ({
            let next = private_vote_next(s, voter, poll_id, option_index);
            &&& vote_refusal(next, voter, later, poll_id, later_option) is Some
            &&& private_vote_refusal(next, voter, later_amount, later, poll_id, later_option) is Some
            &&& ballot_refusal(next, later, poll_id, later_option) is None ==> {
                &&& vote_refusal(next, voter, later, poll_id, later_option) == Some(
                    ContractError::AlreadyVoted,
                )
                &&& private_vote_refusal(
                    next,
                    voter,
                    later_amount,
                    later,
                    poll_id,
                    later_option,
                ) == Some(ContractError::AlreadyVoted)
            }
        }),
{
}

/// No transaction brings an ended poll back: a poll that is not active
/// stays a poll, and stays not active, whatever transaction comes.
pub proof fn lemma_ended_poll_stays_ended(
    s: StateView,
    sender: Address,
    amount: u64,
    now: u64,
    tx: Transaction,
    poll_id: u64,
)
    requires
        s.valid(),
        s.polls.contains_key(poll_id),
        !s.polls[poll_id].active,
    ensures
        step(s, sender, amount, now, tx).polls.contains_key(poll_id),
        !step(s, sender, amount, now, tx).polls[poll_id].active,
{
}

/// The only transaction that changes the active flag of a poll is the
/// accepted request to end that poll.
pub proof fn lemma_only_end_poll_clears_active(
    s: StateView,
    sender: Address,
    amount: u64,
    now: u64,
    tx: Transaction,
    poll_id: u64,
)
    requires
        s.valid(),
        s.polls.contains_key(poll_id),
        s.polls[poll_id].active,
        !step(s, sender, amount, now, tx).polls[poll_id].active,
    ensures
        tx == (Transaction::EndPoll { poll_id }),
        sender == s.polls[poll_id].creator,
{
}

/// A request to end a poll that comes from anyone but the poll's creator is
/// refused as unauthorized, and the state stays as it was.
pub proof fn lemma_only_creator_ends_poll(
    s: StateView,
    sender: Address,
    amount: u64,
    now: u64,
    poll_id: u64,
)
    requires
        s.polls.contains_key(poll_id),
        sender != s.polls[poll_id].creator,
    ensures
        end_poll_refusal(s, sender, poll_id) == Some(ContractError::Unauthorized),
        step(s, sender, amount, now, Transaction::EndPoll { poll_id }) == s,
{
}

/// From its deadline on a poll takes no vote, whether its active flag is
/// still set or not: every vote is refused, whatever is paid for it, and a
/// vote on a poll that was not ended is refused as expired.
pub proof fn lemma_expired_poll_takes_no_vote(
    s: StateView,
    voter: Address,
    amount: u64,
    now: u64,
    poll_id: u64,
    option_index: u32,
)
    requires
        s.polls.contains_key(poll_id),
        now >= s.polls[poll_id].expires_at,
    ensures
        vote_refusal(s, voter, now, poll_id, option_index) is Some,
        private_vote_refusal(s, voter, amount, now, poll_id, option_index) is Some,
        s.polls[poll_id].active ==> vote_refusal(s, voter, now, poll_id, option_index) == Some(
            ContractError::PollExpired,
        ),
        s.polls[poll_id].active ==> private_vote_refusal(
            s,
            voter,
            amount,
            now,
            poll_id,
            option_index,
        ) == Some(ContractError::PollExpired),
{
}

/// A private vote leaves no trace of the chosen option outside the private
/// tally: whichever of two options of the poll is chosen, the vote is
/// accepted or refused alike, and the ledger, the polls and the counter come
/// out the same. The receipt holds no option.
pub proof fn lemma_private_vote_hides_choice(
    s: StateView,
    voter: Address,
    amount: u64,
    now: u64,
    poll_id: u64,
    one: u32,
    other: u32,
)
    requires
        s.polls.contains_key(poll_id),
        (one as nat) < s.polls[poll_id].options.len(),
        (other as nat) < s.polls[poll_id].options.len(),
    ensures
        private_vote_refusal(s, voter, amount, now, poll_id, one) == private_vote_refusal(
            s,
            voter,
            amount,
            now,
            poll_id,
            other,
        ),
        private_vote_next(s, voter, poll_id, one).votes == private_vote_next(
            s,
            voter,
            poll_id,
            other,
        ).votes,
        private_vote_next(s, voter, poll_id, one).polls == private_vote_next(
            s,
            voter,
            poll_id,
            other,
        ).polls,
        private_vote_next(s, voter, poll_id, one).poll_counter == private_vote_next(
            s,
            voter,
            poll_id,
            other,
        ).poll_counter,
        private_vote_next(s, voter, poll_id, one).receipts_of(poll_id)[voter] == Receipt::Private,
{
}

} // verus!
