//! The operations of the contract. Each takes the current state, the
//! authenticated context of the transaction and its parameters, and hands
//! back the state after the transaction together with the notifications to
//! deliver, or with the reason for which the transaction was refused. A
//! refused transaction hands back the state it was given.

use vstd::prelude::*;
use crate::address::Address;
use crate::ledger::has_receipt;
use crate::ledger::increment;
use crate::ledger::record;
use crate::ledger::zeroed_tally;
use crate::model::ballot_refusal;
use crate::model::count_of;
use crate::model::create_poll_next;
use crate::model::create_poll_refusal;
use crate::model::creation_fault;
use crate::model::end_poll_next;
use crate::model::end_poll_refusal;
use crate::model::initial_state;
use crate::model::polls_in_order;
use crate::model::private_vote_next;
use crate::model::private_vote_refusal;
use crate::model::public_vote_next;
use crate::model::step;
use crate::model::vote_refusal;
use crate::model::ContractError;
use crate::model::CreationFault;
use crate::model::MAX_OPTIONS;
use crate::model::NotificationView;
use crate::model::REQUIRED_PAYMENT;
use crate::model::Receipt;
use crate::model::Transaction;
use crate::notification::notification_views;
use crate::notification::poll_views;
use crate::notification::single;
use crate::notification::Notification;
use crate::poll::texts;
use crate::poll::Poll;
use crate::sorted_vec_map::lemma_keys_at_least_position;
use crate::sorted_vec_map::lemma_keys_at_most_position;
use crate::sorted_vec_map::lemma_map_of_entry;
use crate::sorted_vec_map::map_of;
use crate::sorted_vec_map::strictly_increasing;
use crate::sorted_vec_map::SortedVecMap;
use crate::state::lemma_polls_view_insert;
use crate::state::lemma_polls_view_remove;
use crate::state::lemma_rows_view_insert;
use crate::state::lemma_rows_view_remove;
use crate::state::polls_view;
use crate::state::rows_view;
use crate::state::PartiVotesState;
use crate::validity::lemma_counts_within_receipts;
use crate::validity::lemma_create_poll_keeps_valid;
use crate::validity::lemma_end_poll_keeps_valid;
use crate::validity::lemma_initial_state_valid;
use crate::validity::lemma_private_vote_keeps_valid;
use crate::validity::lemma_public_vote_keeps_valid;

verus! {

/// What the hosting environment has established of a transaction before it
/// hands the transaction to the contract.
#[derive(Clone, Copy, Debug, PartialEq, Eq)]
pub struct ContractContext {
    /// Who sent the transaction.
    pub sender: Address,
    /// The payment attached to the transaction.
    pub amount: u64,
    /// The current time.
    pub block_production_time: u64,
}

/// Parameters for creating a poll.
#[derive(Clone, Debug, PartialEq, Eq)]
pub struct CreatePollParams {
    pub title: String,
    pub description: String,
    /// The option labels, at least two.
    pub options: Vec<String>,
    /// The deadline, which has to lie after the current time.
    pub expires_at: u64,
}

/// Parameters for voting.
#[derive(Clone, Debug, PartialEq, Eq)]
pub struct VoteParams {
    pub poll_id: u64,
    pub option_index: u32,
    /// A signature that a public vote may carry. It is accepted as it comes:
    /// nothing here tests it, and no outcome depends on it.
    pub signature: Option<String>,
}

/// Parameters for ending a poll.
#[derive(Clone, Copy, Debug, PartialEq, Eq)]
pub struct EndPollParams {
    pub poll_id: u64,
}

/// Parameters for the queries on one poll.
#[derive(Clone, Copy, Debug, PartialEq, Eq)]
pub struct GetPollResultsParams {
    pub poll_id: u64,
}

/// What an operation hands back besides the state.
pub type Outcome = Result<Vec<Notification>, ContractError>;

/// The outcome as a mathematical value.
pub open spec fn outcome_view(outcome: Outcome) -> Result<Seq<NotificationView>, ContractError> {
    match outcome {
        Ok(events) => Ok(notification_views(events@)),
        Err(e) => Err(e),
    }
}

/// Tests a request to create a poll: the title, the description, the number
/// of options and the deadline, in this order. The first fault is named.
pub fn find_creation_fault(now: u64, params: &CreatePollParams) -> (fault: Option<CreationFault>)
    ensures
        fault == creation_fault(
            now,
            params.title@,
            params.description@,
            texts(params.options@),
            params.expires_at,
        ),
{
    if params.title.as_str().is_empty() {
        Some(CreationFault::EmptyTitle)
    } else if params.description.as_str().is_empty() {
        Some(CreationFault::EmptyDescription)
    } else if params.options.len() < 2 {
        Some(CreationFault::TooFewOptions)
    } else if params.expires_at <= now {
        Some(CreationFault::DeadlineNotAhead)
    } else {
        None
    }
}

/// Deploys the contract: the state has no polls, no receipts and no tallies,
/// and the deployer is its owner. Nothing is notified.
pub fn initialize(context: ContractContext) -> (res: (PartiVotesState, Vec<Notification>))
    ensures
        res.0@ == initial_state(context.sender),
        res.0@.valid(),
        res.1@.len() == 0,
{
    proof {
        lemma_initial_state_valid(context.sender);
    }
    let polls: SortedVecMap<u64, Poll> = SortedVecMap::new();
    let votes = SortedVecMap::new();
    let private_vote_counts = SortedVecMap::new();
    assert(polls_view(polls@) =~= Map::empty());
    assert(rows_view(votes@) =~= Map::empty());
    assert(rows_view(private_vote_counts@) =~= Map::empty());
    assert(polls@.dom() =~= Set::empty());
    let state = PartiVotesState {
        owner: context.sender,
        polls,
        poll_counter: 0,
        votes,
        private_vote_counts,
    };
    (state, Vec::new())
}

/// Creates a poll. The request is refused for want of payment, or as invalid
/// where the title or the description is empty, where there are fewer than
/// two options, or where the deadline does not lie after the current time.
/// An accepted request stores the poll under the counter's value, moves the
/// counter on, sets both tallies of the poll to zero, and notifies of the
/// creation. The request may not hold more options than there are option
/// indices.
pub fn create_poll(context: ContractContext, state: PartiVotesState, params: CreatePollParams) -> (res:
    (PartiVotesState, Outcome))
    requires
        params.options@.len() <= MAX_OPTIONS,
    ensures
        res.0@.valid(),
        res.0@ == step(
            state@,
            context.sender,
            context.amount,
            context.block_production_time,
            Transaction::CreatePoll {
                title: params.title@,
                description: params.description@,
                options: texts(params.options@),
                expires_at: params.expires_at,
            },
        ),
        match create_poll_refusal(
            context.amount,
            context.block_production_time,
            params.title@,
            params.description@,
            texts(params.options@),
            params.expires_at,
        ) {
            Some(e) => res.0 == state && res.1 == Err::<Vec<Notification>, ContractError>(e),
            None => res.0@ == create_poll_next(
                state@,
                context.sender,
                context.block_production_time,
                params.title@,
                params.description@,
                texts(params.options@),
                params.expires_at,
            ) && state@.poll_counter < u64::MAX && outcome_view(res.1) == Ok::<
                Seq<NotificationView>,
                ContractError,
            >(
                seq![
                    (NotificationView::PollCreated {
                        poll_id: state@.poll_counter,
                        creator: context.sender,
                        title: params.title@,
                    }),
                ],
            ),
        },
{
    proof {
        use_type_invariant(&state);
    }
    if context.amount < REQUIRED_PAYMENT {
        return (state, Err(ContractError::InsufficientPayment));
    }
    if find_creation_fault(context.block_production_time, &params).is_some() {
        return (state, Err(ContractError::ValidationError));
    }
    let ghost before = state@;
    let ghost option_texts = texts(params.options@);
    let option_count = params.options.len();
    let public_vote_counts = zeroed_tally(option_count);
    let private_row = zeroed_tally(option_count);
    let PartiVotesState { owner, polls, poll_counter, votes, private_vote_counts } = state;
    let mut polls = polls;
    let mut private_vote_counts = private_vote_counts;
    let poll_id = poll_counter;
    let event = Notification::PollCreated {
        poll_id,
        creator: context.sender,
        title: params.title.clone(),
    };
    let poll = Poll {
        id: poll_id,
        creator: context.sender,
        title: params.title,
        description: params.description,
        options: params.options,
        created_at: context.block_production_time,
        expires_at: params.expires_at,
        active: true,
        public_vote_counts,
    };
    let ghost old_polls = polls@;
    let ghost old_private = private_vote_counts@;
    proof {
        assert(!before.polls.contains_key(poll_id));
        assert(!old_polls.contains_key(poll_id));
        lemma_polls_view_insert(old_polls, poll_id, poll);
        lemma_rows_view_insert(old_private, poll_id, private_row);
    }
    polls.insert(poll_id, poll);
    let stored = polls.len();
    private_vote_counts.insert(poll_id, private_row);
    proof {
        assert(polls_view(old_polls).dom() =~= old_polls.dom());
        assert(polls@.dom() =~= old_polls.dom().insert(poll_id));
        assert(stored == old_polls.dom().len() + 1);
        assert(poll_counter < u64::MAX);
        lemma_create_poll_keeps_valid(
            before,
            context.sender,
            context.amount,
            context.block_production_time,
            params.title@,
            params.description@,
            option_texts,
            params.expires_at,
        );
    }
    let next = PartiVotesState {
        owner,
        polls,
        poll_counter: poll_counter + 1,
        votes,
        private_vote_counts,
    };
    (next, Ok(single(event)))
}

/// Tests what both ways of voting ask of a ballot, whoever casts it: that
/// the poll exists, that it was not ended, that its deadline has not passed,
/// and that it has the option.
pub fn check_ballot(state: &PartiVotesState, now: u64, poll_id: u64, option_index: u32) -> (outcome:
    Result<(), ContractError>)
    ensures
        match ballot_refusal(state@, now, poll_id, option_index) {
            Some(e) => outcome == Err::<(), ContractError>(e),
            None => outcome is Ok,
        },
{
    match state.polls.get(&poll_id) {
        None => Err(ContractError::NotFound),
        Some(poll) => {
            if !poll.active {
                Err(ContractError::PollInactive)
            } else if now >= poll.expires_at {
                Err(ContractError::PollExpired)
            } else if option_index as usize >= poll.options.len() {
                Err(ContractError::ValidationError)
            } else {
                Ok(())
            }
        },
    }
}

/// Casts a public vote. The vote is refused where the poll does not exist,
/// was ended, has expired or lacks the option, or where the voter already
/// has a receipt for the poll; the conditions are tested in this order. An
/// accepted vote leaves a receipt that holds the option, raises the poll's
/// public count of the option by one, and notifies of poll, voter and
/// option. The signature in the parameters is not looked at.
pub fn vote_with_signature(context: ContractContext, state: PartiVotesState, params: VoteParams) -> (res:
    (PartiVotesState, Outcome))
    ensures
        res.0@.valid(),
        res.0@ == step(
            state@,
            context.sender,
            context.amount,
            context.block_production_time,
            Transaction::PublicVote { poll_id: params.poll_id, option_index: params.option_index },
        ),
        match vote_refusal(
            state@,
            context.sender,
            context.block_production_time,
            params.poll_id,
            params.option_index,
        ) {
            Some(e) => res.0 == state && res.1 == Err::<Vec<Notification>, ContractError>(e),
            None => res.0@ == public_vote_next(
                state@,
                context.sender,
                params.poll_id,
                params.option_index,
            ) && count_of(state@.polls[params.poll_id].public_vote_counts, params.option_index)
                < u64::MAX && outcome_view(res.1) == Ok::<Seq<NotificationView>, ContractError>(
                seq![
                    (NotificationView::PublicVoteCast {
                        poll_id: params.poll_id,
                        voter: context.sender,
                        option: params.option_index,
                    }),
                ],
            ),
        },
{
    proof {
        use_type_invariant(&state);
    }
    let now = context.block_production_time;
    let poll_id = params.poll_id;
    let option_index = params.option_index;
    match check_ballot(&state, now, poll_id, option_index) {
        Err(e) => {
            return (state, Err(e));
        },
        Ok(()) => {},
    }
    let ghost before = state@;
    proof {
        lemma_counts_within_receipts(before, now, poll_id, option_index);
    }
    let PartiVotesState { owner, polls, poll_counter, votes, private_vote_counts } = state;
    let mut polls = polls;
    let mut votes = votes;
    match record(&mut votes, poll_id, context.sender, Receipt::Public { option_index }) {
        Err(e) => {
            let same = PartiVotesState { owner, polls, poll_counter, votes, private_vote_counts };
            return (same, Err(e));
        },
        Ok(()) => {},
    }
    let ghost old_polls = polls@;
    let removed = polls.remove(&poll_id);
    let mut poll = removed.unwrap();
    let ghost old_poll = poll;
    increment(&mut poll.public_vote_counts, option_index);
    proof {
        assert(poll@ == old_poll@.with_vote(option_index));
        lemma_polls_view_remove(old_polls, poll_id);
        lemma_polls_view_insert(old_polls.remove(poll_id), poll_id, poll);
        assert(polls_view(old_polls.remove(poll_id).insert(poll_id, poll)) =~= before.polls.insert(
            poll_id,
            before.polls[poll_id].with_vote(option_index),
        ));
        assert(old_polls.remove(poll_id).insert(poll_id, poll).dom() =~= old_polls.dom());
        lemma_public_vote_keeps_valid(before, context.sender, now, poll_id, option_index);
    }
    polls.insert(poll_id, poll);
    let next = PartiVotesState { owner, polls, poll_counter, votes, private_vote_counts };
    let event = Notification::PublicVoteCast {
        poll_id,
        voter: context.sender,
        option: option_index,
    };
    (next, Ok(single(event)))
}

/// Casts a private vote. The vote is refused on the conditions on which a
/// public vote is refused, tested in the same order, and after them for want
/// of payment. An accepted vote leaves a receipt that holds no option,
/// raises the poll's private count of the option by one, and notifies of
/// poll and voter, not of the option. A poll without a private tally gets
/// one of zeros first.
pub fn vote_with_mpc(context: ContractContext, state: PartiVotesState, params: VoteParams) -> (res: (
    PartiVotesState,
    Outcome,
))
    ensures
        res.0@.valid(),
        res.0@ == step(
            state@,
            context.sender,
            context.amount,
            context.block_production_time,
            Transaction::PrivateVote { poll_id: params.poll_id, option_index: params.option_index },
        ),
        match private_vote_refusal(
            state@,
            context.sender,
            context.amount,
            context.block_production_time,
            params.poll_id,
            params.option_index,
        ) {
            Some(e) => res.0 == state && res.1 == Err::<Vec<Notification>, ContractError>(e),
            None => res.0@ == private_vote_next(
                state@,
                context.sender,
                params.poll_id,
                params.option_index,
            ) && count_of(state@.private_tally_of(params.poll_id), params.option_index) < u64::MAX
                && outcome_view(res.1) == Ok::<Seq<NotificationView>, ContractError>(
                seq![
                    (NotificationView::PrivateVoteCast {
                        poll_id: params.poll_id,
                        voter: context.sender,
                    }),
                ],
            ),
        },
{
    proof {
        use_type_invariant(&state);
    }
    let now = context.block_production_time;
    let poll_id = params.poll_id;
    let option_index = params.option_index;
    match check_ballot(&state, now, poll_id, option_index) {
        Err(e) => {
            return (state, Err(e));
        },
        Ok(()) => {},
    }
    if has_receipt(&state.votes, poll_id, &context.sender) {
        return (state, Err(ContractError::AlreadyVoted));
    }
    if context.amount < REQUIRED_PAYMENT {
        return (state, Err(ContractError::InsufficientPayment));
    }
    let ghost before = state@;
    proof {
        lemma_counts_within_receipts(before, now, poll_id, option_index);
    }
    let option_count = match state.polls.get(&poll_id) {
        Some(poll) => poll.options.len(),
        None => 0,
    };
    let PartiVotesState { owner, polls, poll_counter, votes, private_vote_counts } = state;
    let mut votes = votes;
    let mut private_vote_counts = private_vote_counts;
    match record(&mut votes, poll_id, context.sender, Receipt::Private) {
        Err(e) => {
            let same = PartiVotesState { owner, polls, poll_counter, votes, private_vote_counts };
            return (same, Err(e));
        },
        Ok(()) => {},
    }
    let ghost old_private = private_vote_counts@;
    let mut row = match private_vote_counts.remove(&poll_id) {
        Some(row) => row,
        None => zeroed_tally(option_count),
    };
    assert(row@ == before.private_tally_of(poll_id));
    increment(&mut row, option_index);
    proof {
        lemma_rows_view_remove(old_private, poll_id);
        lemma_rows_view_insert(old_private.remove(poll_id), poll_id, row);
        assert(rows_view(old_private.remove(poll_id).insert(poll_id, row))
            =~= before.private_vote_counts.insert(poll_id, row@));
        lemma_private_vote_keeps_valid(before, context.sender, now, poll_id, option_index);
    }
    private_vote_counts.insert(poll_id, row);
    let next = PartiVotesState { owner, polls, poll_counter, votes, private_vote_counts };
    let event = Notification::PrivateVoteCast { poll_id, voter: context.sender };
    (next, Ok(single(event)))
}

/// Ends a poll before its deadline. The request is refused where the poll
/// does not exist, where the sender is not its creator, or where it was
/// ended already; the conditions are tested in this order. An accepted
/// request clears the poll's active flag, changes nothing else, and notifies
/// of the poll and of who ended it.
pub fn end_poll(context: ContractContext, state: PartiVotesState, params: EndPollParams) -> (res: (
    PartiVotesState,
    Outcome,
))
    ensures
        res.0@.valid(),
        res.0@ == step(
            state@,
            context.sender,
            context.amount,
            context.block_production_time,
            Transaction::EndPoll { poll_id: params.poll_id },
        ),
        match end_poll_refusal(state@, context.sender, params.poll_id) {
            Some(e) => res.0 == state && res.1 == Err::<Vec<Notification>, ContractError>(e),
            None => res.0@ == end_poll_next(state@, params.poll_id) && outcome_view(res.1) == Ok::<
                Seq<NotificationView>,
                ContractError,
            >(
                seq![
                    (NotificationView::PollEnded {
                        poll_id: params.poll_id,
                        ended_by: context.sender,
                    }),
                ],
            ),
        },
{
    proof {
        use_type_invariant(&state);
    }
    let poll_id = params.poll_id;
    let refusal = match state.polls.get(&poll_id) {
        None => Some(ContractError::NotFound),
        Some(poll) => {
            if !poll.creator.same(&context.sender) {
                Some(ContractError::Unauthorized)
            } else if !poll.active {
                Some(ContractError::ValidationError)
            } else {
                None
            }
        },
    };
    match refusal {
        Some(e) => {
            return (state, Err(e));
        },
        None => {},
    }
    let ghost before = state@;
    let PartiVotesState { owner, polls, poll_counter, votes, private_vote_counts } = state;
    let mut polls = polls;
    let ghost old_polls = polls@;
    let removed = polls.remove(&poll_id);
    let mut poll = removed.unwrap();
    let ghost old_poll = poll;
    poll.active = false;
    proof {
        assert(poll@ == old_poll@.ended());
        lemma_polls_view_remove(old_polls, poll_id);
        lemma_polls_view_insert(old_polls.remove(poll_id), poll_id, poll);
        assert(polls_view(old_polls.remove(poll_id).insert(poll_id, poll)) =~= before.polls.insert(
            poll_id,
            before.polls[poll_id].ended(),
        ));
        assert(old_polls.remove(poll_id).insert(poll_id, poll).dom() =~= old_polls.dom());
        lemma_end_poll_keeps_valid(before, context.sender, poll_id);
    }
    polls.insert(poll_id, poll);
    let next = PartiVotesState { owner, polls, poll_counter, votes, private_vote_counts };
    let event = Notification::PollEnded { poll_id, ended_by: context.sender };
    (next, Ok(single(event)))
}

/// Lists all polls in the order of their identifiers. The state stays as it
/// is.
pub fn get_polls(_context: ContractContext, state: PartiVotesState) -> (res: (PartiVotesState, Outcome))
    ensures
        res.0 == state,
        res.0@.valid(),
        outcome_view(res.1) == Ok::<Seq<NotificationView>, ContractError>(
            seq![(NotificationView::PollsList { polls: polls_in_order(state@) })],
        ),
{
    proof {
        use_type_invariant(&state);
    }
    let count = state.polls.len();
    let ghost keys = state.polls.ordered_keys();
    let ghost values = state.polls.ordered_values();
    proof {
        state.polls.lemma_ordered_entries();
        assert(state@.polls.dom() =~= state.polls@.dom());
        assert forall|j: int| 0 <= j < keys.len() implies keys[j] < keys.len() by {
            lemma_map_of_entry(keys, values, j);
            assert(state@.polls.contains_key(keys[j]));
        }
    }
    let mut polls: Vec<Poll> = Vec::new();
    let mut i: usize = 0;
    while i < count
        invariant
            i <= count,
            count == keys.len(),
            count == values.len(),
            count == state@.poll_counter,
            keys == state.polls.ordered_keys(),
            values == state.polls.ordered_values(),
            strictly_increasing(keys),
            state.polls@ == map_of(keys, values),
            forall|j: int| 0 <= j < keys.len() ==> keys[j] < keys.len(),
            polls@.len() == i,
            forall|j: int| 0 <= j < i ==> polls@[j]@ == state@.polls[j as u64],
        decreases count - i,
    {
        let poll = state.polls.value_at(i);
        proof {
            lemma_keys_at_least_position(keys, i as int);
            lemma_keys_at_most_position(keys, i as int);
            lemma_map_of_entry(keys, values, i as int);
        }
        polls.push(poll.clone());
        i += 1;
    }
    assert(poll_views(polls@) =~= polls_in_order(state@));
    let event = Notification::PollsList { polls };
    (state, Ok(single(event)))
}

/// Fetches one poll. The request is refused where the poll does not exist.
/// The state stays as it is.
pub fn get_poll(_context: ContractContext, state: PartiVotesState, params: GetPollResultsParams) -> (res:
    (PartiVotesState, Outcome))
    ensures
        res.0 == state,
        res.0@.valid(),
        outcome_view(res.1) == (if state@.polls.contains_key(params.poll_id) {
            Ok::<Seq<NotificationView>, ContractError>(
                seq![(NotificationView::PollDetails { poll: state@.polls[params.poll_id] })],
            )
        } else {
            Err::<Seq<NotificationView>, ContractError>(ContractError::NotFound)
        }),
{
    proof {
        use_type_invariant(&state);
    }
    let found = match state.polls.get(&params.poll_id) {
        Some(poll) => Some(poll.clone()),
        None => None,
    };
    match found {
        Some(poll) => (state, Ok(single(Notification::PollDetails { poll }))),
        None => (state, Err(ContractError::NotFound)),
    }
}

/// Fetches both tallies of one poll. The request is refused where the poll
/// does not exist. A poll without a private tally is shown with a tally
/// of zeros, one for each option. The state stays as it is.
pub fn get_poll_results(
    _context: ContractContext,
    state: PartiVotesState,
    params: GetPollResultsParams,
) -> (res: (PartiVotesState, Outcome))
    ensures
        res.0 == state,
        res.0@.valid(),
        outcome_view(res.1) == (if state@.polls.contains_key(params.poll_id) {
            Ok::<Seq<NotificationView>, ContractError>(
                seq![
                    (NotificationView::PollResults {
                        poll_id: params.poll_id,
                        public_votes: state@.polls[params.poll_id].public_vote_counts,
                        private_votes: state@.private_tally_of(params.poll_id),
                    }),
                ],
            )
        } else {
            Err::<Seq<NotificationView>, ContractError>(ContractError::NotFound)
        }),
{
    proof {
        use_type_invariant(&state);
    }
    let poll_id = params.poll_id;
    let tallies = match state.polls.get(&poll_id) {
        None => None,
        Some(poll) => {
            assert(state@.polls.contains_key(poll_id));
            let public_votes = poll.public_vote_counts.clone();
            let private_votes = match state.private_vote_counts.get(&poll_id) {
                Some(row) => row.clone(),
                None => zeroed_tally(poll.options.len()),
            };
            Some((public_votes, private_votes))
        },
    };
    match tallies {
        Some((public_votes, private_votes)) => {
            let event = Notification::PollResults { poll_id, public_votes, private_votes };
            (state, Ok(single(event)))
        },
        None => (state, Err(ContractError::NotFound)),
    }
}

/// Tells whether the sender has voted in a poll. The request is refused
/// where the poll does not exist. The state stays as it is.
pub fn has_voted(context: ContractContext, state: PartiVotesState, params: GetPollResultsParams) -> (res:
    (PartiVotesState, Outcome))
    ensures
        res.0 == state,
        res.0@.valid(),
        outcome_view(res.1) == (if state@.polls.contains_key(params.poll_id) {
            Ok::<Seq<NotificationView>, ContractError>(
                seq![
                    (NotificationView::HasVoted {
                        poll_id: params.poll_id,
                        user: context.sender,
                        has_voted: state@.has_voted(params.poll_id, context.sender),
                    }),
                ],
            )
        } else {
            Err::<Seq<NotificationView>, ContractError>(ContractError::NotFound)
        }),
{
    proof {
        use_type_invariant(&state);
    }
    let poll_id = params.poll_id;
    if !state.polls.contains_key(&poll_id) {
        return (state, Err(ContractError::NotFound));
    }
    let voted = has_receipt(&state.votes, poll_id, &context.sender);
    let event = Notification::HasVoted { poll_id, user: context.sender, has_voted: voted };
    (state, Ok(single(event)))
}

} // verus!
