use parti_votes::address::Address;
use parti_votes::address::AddressType;
use parti_votes::contract::create_poll;
use parti_votes::contract::end_poll;
use parti_votes::contract::get_poll;
use parti_votes::contract::get_poll_results;
use parti_votes::contract::has_voted;
use parti_votes::contract::initialize;
use parti_votes::contract::vote_with_mpc;
use parti_votes::contract::vote_with_signature;
use parti_votes::contract::ContractContext;
use parti_votes::contract::CreatePollParams;
use parti_votes::contract::EndPollParams;
use parti_votes::contract::GetPollResultsParams;
use parti_votes::contract::VoteParams;
use parti_votes::contract::find_creation_fault;
use parti_votes::model::ContractError;
use parti_votes::model::CreationFault;
use parti_votes::model::Receipt;
use parti_votes::state::PartiVotesState;

const T0: u64 = 1_000;

fn voter(tag: u8) -> Address {
    let mut identifier = [0u8; 20];
    identifier[0] = tag;
    Address { address_type: AddressType::Account, identifier }
}

fn at(sender: Address, amount: u64, now: u64) -> ContractContext {
    ContractContext { sender, amount, block_production_time: now }
}

fn request(title: &str, description: &str, options: &[&str], expires_at: u64) -> CreatePollParams {
    CreatePollParams {
        title: title.to_string(),
        description: description.to_string(),
        options: options.iter().map(|o| o.to_string()).collect(),
        expires_at,
    }
}

fn ballot(poll_id: u64, option_index: u32) -> VoteParams {
    VoteParams { poll_id, option_index, signature: None }
}

fn fresh() -> PartiVotesState {
    initialize(at(voter(1), 0, T0)).0
}

/// Poll 0 with three options, created by `voter(1)` at `T0`, expiring at
/// `T0 + 100`.
fn one_poll() -> PartiVotesState {
    let (state, outcome) =
        create_poll(at(voter(1), 100, T0), fresh(), request("t", "d", &["a", "b", "c"], T0 + 100));
    assert!(outcome.is_ok());
    state
}

#[test]
fn create_poll_needs_payment() {
    let (state, outcome) =
        create_poll(at(voter(1), 99, T0), fresh(), request("t", "d", &["a", "b"], T0 + 1));
    assert_eq!(outcome, Err(ContractError::InsufficientPayment));
    assert_eq!(state.poll_counter(), 0);
    assert!(state.poll(0).is_none());
}

#[test]
fn create_poll_payment_is_tested_first() {
    let (_, outcome) = create_poll(at(voter(1), 0, T0), fresh(), request("", "", &[], 0));
    assert_eq!(outcome, Err(ContractError::InsufficientPayment));
}

#[test]
fn create_poll_accepts_exact_payment_and_next_instant() {
    let (state, outcome) =
        create_poll(at(voter(1), 100, T0), fresh(), request("t", "d", &["a", "b"], T0 + 1));
    assert!(outcome.is_ok());
    assert_eq!(state.poll_counter(), 1);
}

#[test]
fn create_poll_rejects_empty_title() {
    let (state, outcome) =
        create_poll(at(voter(1), 100, T0), fresh(), request("", "d", &["a", "b"], T0 + 1));
    assert_eq!(outcome, Err(ContractError::ValidationError));
    assert_eq!(state.poll_counter(), 0);
}

#[test]
fn create_poll_rejects_empty_description() {
    let (_, outcome) =
        create_poll(at(voter(1), 100, T0), fresh(), request("t", "", &["a", "b"], T0 + 1));
    assert_eq!(outcome, Err(ContractError::ValidationError));
}

#[test]
fn create_poll_rejects_fewer_than_two_options() {
    let (_, outcome) = create_poll(at(voter(1), 100, T0), fresh(), request("t", "d", &["a"], T0 + 1));
    assert_eq!(outcome, Err(ContractError::ValidationError));
    let (_, outcome) = create_poll(at(voter(1), 100, T0), fresh(), request("t", "d", &[], T0 + 1));
    assert_eq!(outcome, Err(ContractError::ValidationError));
}

#[test]
fn create_poll_rejects_deadline_not_in_the_future() {
    let (_, outcome) = create_poll(at(voter(1), 100, T0), fresh(), request("t", "d", &["a", "b"], T0));
    assert_eq!(outcome, Err(ContractError::ValidationError));
    let (state, outcome) =
        create_poll(at(voter(1), 100, T0), fresh(), request("t", "d", &["a", "b"], T0 - 1));
    assert_eq!(outcome, Err(ContractError::ValidationError));
    assert!(state.private_tally(0).is_none());
}

#[test]
fn refused_creation_does_not_use_up_an_identifier() {
    let (state, outcome) =
        create_poll(at(voter(1), 100, T0), fresh(), request("", "d", &["a", "b"], T0 + 1));
    assert!(outcome.is_err());
    let (state, outcome) =
        create_poll(at(voter(1), 100, T0), state, request("t", "d", &["a", "b"], T0 + 1));
    assert!(outcome.is_ok());
    assert_eq!(state.poll(0).unwrap().id, 0);
    assert_eq!(state.poll_counter(), 1);
}

#[test]
fn vote_on_a_missing_poll() {
    let (_, outcome) = vote_with_signature(at(voter(2), 0, T0), one_poll(), ballot(1, 0));
    assert_eq!(outcome, Err(ContractError::NotFound));
    let (_, outcome) = vote_with_mpc(at(voter(2), 100, T0), one_poll(), ballot(1, 0));
    assert_eq!(outcome, Err(ContractError::NotFound));
    let (_, outcome) = vote_with_signature(at(voter(2), 0, T0), fresh(), ballot(0, 0));
    assert_eq!(outcome, Err(ContractError::NotFound));
}

#[test]
fn vote_at_the_deadline_is_expired() {
    let (state, outcome) = vote_with_signature(at(voter(2), 0, T0 + 100), one_poll(), ballot(0, 0));
    assert_eq!(outcome, Err(ContractError::PollExpired));
    assert!(state.poll(0).unwrap().active);
    assert_eq!(state.receipt(0, &voter(2)), None);
    let (state, outcome) = vote_with_mpc(at(voter(2), 100, T0 + 101), state, ballot(0, 0));
    assert_eq!(outcome, Err(ContractError::PollExpired));
    assert_eq!(state.private_tally(0).unwrap().get(&0), Some(&0));
}

#[test]
fn vote_just_before_the_deadline_is_taken() {
    let (state, outcome) = vote_with_signature(at(voter(2), 0, T0 + 99), one_poll(), ballot(0, 2));
    assert!(outcome.is_ok());
    assert_eq!(state.poll(0).unwrap().public_vote_counts.get(&2), Some(&1));
}

#[test]
fn vote_for_a_missing_option() {
    let (state, outcome) = vote_with_signature(at(voter(2), 0, T0), one_poll(), ballot(0, 3));
    assert_eq!(outcome, Err(ContractError::ValidationError));
    assert_eq!(state.poll(0).unwrap().public_vote_counts.len(), 3);
    let (state, outcome) = vote_with_mpc(at(voter(2), 100, T0), state, ballot(0, u32::MAX));
    assert_eq!(outcome, Err(ContractError::ValidationError));
    assert_eq!(state.private_tally(0).unwrap().len(), 3);
    assert_eq!(state.receipt(0, &voter(2)), None);
}

#[test]
fn expiry_is_tested_before_the_option() {
    let (_, outcome) = vote_with_signature(at(voter(2), 0, T0 + 100), one_poll(), ballot(0, 9));
    assert_eq!(outcome, Err(ContractError::PollExpired));
}

#[test]
fn private_vote_needs_payment() {
    let (state, outcome) = vote_with_mpc(at(voter(2), 99, T0), one_poll(), ballot(0, 0));
    assert_eq!(outcome, Err(ContractError::InsufficientPayment));
    assert_eq!(state.receipt(0, &voter(2)), None);
    assert_eq!(state.private_tally(0).unwrap().get(&0), Some(&0));
    let (state, outcome) = vote_with_mpc(at(voter(2), 0, T0 + 99), state, ballot(0, 2));
    assert_eq!(outcome, Err(ContractError::InsufficientPayment));
    let (state, outcome) = vote_with_mpc(at(voter(2), 100, T0 + 99), state, ballot(0, 2));
    assert!(outcome.is_ok());
    assert_eq!(state.private_tally(0).unwrap().get(&2), Some(&1));
}

#[test]
fn the_payment_is_tested_after_the_ballot_and_the_receipt() {
    // A missing poll.
    let (_, outcome) = vote_with_mpc(at(voter(2), 0, T0), one_poll(), ballot(5, 0));
    assert_eq!(outcome, Err(ContractError::NotFound));
    // An expired poll whose active flag is still set.
    let (state, outcome) = vote_with_mpc(at(voter(2), 99, T0 + 100), one_poll(), ballot(0, 0));
    assert_eq!(outcome, Err(ContractError::PollExpired));
    assert!(state.poll(0).unwrap().active);
    // A missing option.
    let (_, outcome) = vote_with_mpc(at(voter(2), 99, T0), one_poll(), ballot(0, 3));
    assert_eq!(outcome, Err(ContractError::ValidationError));
    // A repeated vote, after a public and after a private one.
    let (state, outcome) = vote_with_signature(at(voter(2), 0, T0), one_poll(), ballot(0, 1));
    assert!(outcome.is_ok());
    let (state, outcome) = vote_with_mpc(at(voter(2), 0, T0 + 1), state, ballot(0, 1));
    assert_eq!(outcome, Err(ContractError::AlreadyVoted));
    let (state, outcome) = vote_with_mpc(at(voter(3), 100, T0 + 1), state, ballot(0, 1));
    assert!(outcome.is_ok());
    let (state, outcome) = vote_with_mpc(at(voter(3), 99, T0 + 2), state, ballot(0, 1));
    assert_eq!(outcome, Err(ContractError::AlreadyVoted));
    // An ended poll.
    let (state, outcome) = end_poll(at(voter(1), 0, T0 + 3), state, EndPollParams { poll_id: 0 });
    assert!(outcome.is_ok());
    let (_, outcome) = vote_with_mpc(at(voter(4), 0, T0 + 4), state, ballot(0, 0));
    assert_eq!(outcome, Err(ContractError::PollInactive));
}

#[test]
fn public_vote_needs_no_payment() {
    let (_, outcome) = vote_with_signature(at(voter(2), 0, T0), one_poll(), ballot(0, 0));
    assert!(outcome.is_ok());
}

#[test]
fn second_vote_is_refused_in_every_mix() {
    // public, then private
    let (state, outcome) = vote_with_signature(at(voter(2), 0, T0), one_poll(), ballot(0, 1));
    assert!(outcome.is_ok());
    let (state, outcome) = vote_with_mpc(at(voter(2), 100, T0 + 1), state, ballot(0, 2));
    assert_eq!(outcome, Err(ContractError::AlreadyVoted));
    assert_eq!(state.receipt(0, &voter(2)), Some(Receipt::Public { option_index: 1 }));
    assert_eq!(state.private_tally(0).unwrap().get(&2), Some(&0));

    // private, then public
    let (state, outcome) = vote_with_mpc(at(voter(3), 100, T0), state, ballot(0, 0));
    assert!(outcome.is_ok());
    let (state, outcome) = vote_with_signature(at(voter(3), 0, T0 + 1), state, ballot(0, 0));
    assert_eq!(outcome, Err(ContractError::AlreadyVoted));
    assert_eq!(state.receipt(0, &voter(3)), Some(Receipt::Private));
    assert_eq!(state.poll(0).unwrap().public_vote_counts.get(&0), Some(&0));

    // private, then private
    let (state, outcome) = vote_with_mpc(at(voter(3), 100, T0 + 2), state, ballot(0, 1));
    assert_eq!(outcome, Err(ContractError::AlreadyVoted));
    assert_eq!(state.private_tally(0).unwrap().get(&0), Some(&1));
    assert_eq!(state.private_tally(0).unwrap().get(&1), Some(&0));
}

#[test]
fn a_private_vote_for_option_zero_is_no_public_vote() {
    let (state, outcome) = vote_with_mpc(at(voter(2), 100, T0), one_poll(), ballot(0, 0));
    assert!(outcome.is_ok());
    assert_ne!(state.receipt(0, &voter(2)), Some(Receipt::Public { option_index: 0 }));
    assert_eq!(state.poll(0).unwrap().public_vote_counts.get(&0), Some(&0));
}

#[test]
fn a_voter_may_vote_in_two_polls() {
    let (state, outcome) =
        create_poll(at(voter(1), 100, T0), one_poll(), request("u", "e", &["x", "y"], T0 + 100));
    assert!(outcome.is_ok());
    let (state, outcome) = vote_with_signature(at(voter(2), 0, T0), state, ballot(0, 0));
    assert!(outcome.is_ok());
    let (state, outcome) = vote_with_signature(at(voter(2), 0, T0), state, ballot(1, 1));
    assert!(outcome.is_ok());
    assert_eq!(state.receipt(0, &voter(2)), Some(Receipt::Public { option_index: 0 }));
    assert_eq!(state.receipt(1, &voter(2)), Some(Receipt::Public { option_index: 1 }));
    assert_eq!(state.poll(1).unwrap().public_vote_counts.get(&1), Some(&1));
    assert_eq!(state.poll(0).unwrap().public_vote_counts.get(&1), Some(&0));
}

#[test]
fn end_poll_on_a_missing_poll() {
    let (_, outcome) = end_poll(at(voter(1), 0, T0), one_poll(), EndPollParams { poll_id: 4 });
    assert_eq!(outcome, Err(ContractError::NotFound));
}

#[test]
fn end_poll_twice() {
    let (state, outcome) = end_poll(at(voter(1), 0, T0), one_poll(), EndPollParams { poll_id: 0 });
    assert!(outcome.is_ok());
    let (state, outcome) = end_poll(at(voter(1), 0, T0 + 1), state, EndPollParams { poll_id: 0 });
    assert_eq!(outcome, Err(ContractError::ValidationError));
    assert!(!state.poll(0).unwrap().active);
}

#[test]
fn a_stranger_is_unauthorized_even_on_an_ended_poll() {
    let (state, outcome) = end_poll(at(voter(1), 0, T0), one_poll(), EndPollParams { poll_id: 0 });
    assert!(outcome.is_ok());
    let (_, outcome) = end_poll(at(voter(2), 0, T0 + 1), state, EndPollParams { poll_id: 0 });
    assert_eq!(outcome, Err(ContractError::Unauthorized));
}

#[test]
fn an_address_of_another_kind_is_not_the_creator() {
    let mut contract = voter(1);
    contract.address_type = AddressType::PublicContract;
    let (state, outcome) = end_poll(at(contract, 0, T0), one_poll(), EndPollParams { poll_id: 0 });
    assert_eq!(outcome, Err(ContractError::Unauthorized));
    assert!(state.poll(0).unwrap().active);
}

#[test]
fn end_poll_works_after_the_deadline_and_keeps_the_tallies() {
    let (state, outcome) = vote_with_signature(at(voter(2), 0, T0), one_poll(), ballot(0, 1));
    assert!(outcome.is_ok());
    let (state, outcome) = end_poll(at(voter(1), 0, T0 + 500), state, EndPollParams { poll_id: 0 });
    assert!(outcome.is_ok());
    let poll = state.poll(0).unwrap();
    assert!(!poll.active);
    assert_eq!(poll.public_vote_counts.get(&1), Some(&1));
    assert_eq!(poll.expires_at, T0 + 100);
    assert_eq!(state.receipt(0, &voter(2)), Some(Receipt::Public { option_index: 1 }));
}

#[test]
fn queries_on_a_missing_poll() {
    let query = || GetPollResultsParams { poll_id: 3 };
    let (state, outcome) = get_poll(at(voter(2), 0, T0), one_poll(), query());
    assert_eq!(outcome, Err(ContractError::NotFound));
    let (state, outcome) = get_poll_results(at(voter(2), 0, T0), state, query());
    assert_eq!(outcome, Err(ContractError::NotFound));
    let (state, outcome) = has_voted(at(voter(2), 0, T0), state, query());
    assert_eq!(outcome, Err(ContractError::NotFound));
    assert_eq!(state.poll_counter(), 1);
}

#[test]
fn an_ended_poll_stays_ended() {
    let (state, outcome) = end_poll(at(voter(1), 0, T0), one_poll(), EndPollParams { poll_id: 0 });
    assert!(outcome.is_ok());
    let (state, _) = vote_with_signature(at(voter(2), 0, T0 + 1), state, ballot(0, 0));
    assert!(!state.poll(0).unwrap().active);
    let (state, _) = vote_with_mpc(at(voter(3), 100, T0 + 1), state, ballot(0, 1));
    assert!(!state.poll(0).unwrap().active);
    let (state, _) = end_poll(at(voter(1), 0, T0 + 2), state, EndPollParams { poll_id: 0 });
    assert!(!state.poll(0).unwrap().active);
    let (state, _) = end_poll(at(voter(4), 0, T0 + 2), state, EndPollParams { poll_id: 0 });
    assert!(!state.poll(0).unwrap().active);
    let (state, outcome) =
        create_poll(at(voter(1), 100, T0 + 3), state, request("u", "e", &["x", "y"], T0 + 100));
    assert!(outcome.is_ok());
    assert!(!state.poll(0).unwrap().active);
    assert!(state.poll(1).unwrap().active);
    let (state, _) = get_poll(at(voter(1), 0, T0 + 4), state, GetPollResultsParams { poll_id: 0 });
    assert!(!state.poll(0).unwrap().active);
}

#[test]
fn a_refused_transaction_changes_nothing() {
    let busy = || {
        let (state, _) = vote_with_signature(at(voter(2), 0, T0), one_poll(), ballot(0, 1));
        let (state, _) = vote_with_mpc(at(voter(3), 100, T0), state, ballot(0, 2));
        state
    };
    let untouched = busy().into_parts();

    let (state, outcome) = create_poll(at(voter(1), 1, T0), busy(), request("t", "d", &["a", "b"], T0 + 1));
    assert!(outcome.is_err());
    assert_eq!(state.into_parts(), untouched);
    let (state, outcome) = create_poll(at(voter(1), 100, T0), busy(), request("t", "d", &["a"], T0 + 1));
    assert!(outcome.is_err());
    assert_eq!(state.into_parts(), untouched);

    for (sender, amount, now, params) in [
        (voter(2), 100, T0, ballot(0, 0)),
        (voter(3), 100, T0, ballot(0, 0)),
        (voter(4), 100, T0 + 100, ballot(0, 0)),
        (voter(4), 100, T0, ballot(0, 3)),
        (voter(4), 100, T0, ballot(1, 0)),
    ] {
        let (state, outcome) = vote_with_signature(at(sender, amount, now), busy(), params.clone());
        assert!(outcome.is_err());
        assert_eq!(state.into_parts(), untouched);
        let (state, outcome) = vote_with_mpc(at(sender, amount, now), busy(), params);
        assert!(outcome.is_err());
        assert_eq!(state.into_parts(), untouched);
    }
    let (state, outcome) = vote_with_mpc(at(voter(4), 99, T0), busy(), ballot(0, 0));
    assert!(outcome.is_err());
    assert_eq!(state.into_parts(), untouched);

    let (state, outcome) = end_poll(at(voter(2), 0, T0), busy(), EndPollParams { poll_id: 0 });
    assert!(outcome.is_err());
    assert_eq!(state.into_parts(), untouched);
    let (state, outcome) = end_poll(at(voter(1), 0, T0), busy(), EndPollParams { poll_id: 1 });
    assert!(outcome.is_err());
    assert_eq!(state.into_parts(), untouched);
}

#[test]
fn queries_change_nothing() {
    let busy = || {
        let (state, _) = vote_with_signature(at(voter(2), 0, T0), one_poll(), ballot(0, 1));
        state
    };
    let untouched = busy().into_parts();
    let query = GetPollResultsParams { poll_id: 0 };
    let (state, outcome) = get_poll(at(voter(2), 0, T0 + 500), busy(), query);
    assert!(outcome.is_ok());
    assert_eq!(state.into_parts(), untouched);
    let (state, outcome) = get_poll_results(at(voter(2), 0, T0 + 500), busy(), query);
    assert!(outcome.is_ok());
    assert_eq!(state.into_parts(), untouched);
    let (state, outcome) = has_voted(at(voter(2), 0, T0 + 500), busy(), query);
    assert!(outcome.is_ok());
    assert_eq!(state.into_parts(), untouched);
    let (state, outcome) = parti_votes::contract::get_polls(at(voter(2), 0, T0 + 500), busy());
    assert!(outcome.is_ok());
    assert_eq!(state.into_parts(), untouched);
}

#[test]
fn creation_faults_are_named_in_their_order() {
    let fault = |title: &str, description: &str, options: &[&str], expires_at: u64| {
        find_creation_fault(T0, &request(title, description, options, expires_at))
    };
    assert_eq!(fault("t", "d", &["a", "b"], T0 + 1), None);
    assert_eq!(fault("", "", &[], 0), Some(CreationFault::EmptyTitle));
    assert_eq!(fault("t", "", &[], 0), Some(CreationFault::EmptyDescription));
    assert_eq!(fault("t", "d", &["a"], 0), Some(CreationFault::TooFewOptions));
    assert_eq!(fault("t", "d", &["a", "b"], T0), Some(CreationFault::DeadlineNotAhead));
    assert_eq!(fault("t", "d", &["a", "b", "c"], u64::MAX), None);
}
