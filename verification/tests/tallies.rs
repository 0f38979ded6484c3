use parti_votes::address::Address;
use parti_votes::address::AddressType;
use parti_votes::contract::create_poll;
use parti_votes::contract::initialize;
use parti_votes::contract::vote_with_mpc;
use parti_votes::contract::vote_with_signature;
use parti_votes::contract::ContractContext;
use parti_votes::contract::CreatePollParams;
use parti_votes::contract::VoteParams;
use parti_votes::ledger::has_receipt;
use parti_votes::ledger::increment;
use parti_votes::ledger::record;
use parti_votes::ledger::zeroed_tally;
use parti_votes::model::ContractError;
use parti_votes::model::Receipt;
use parti_votes::sorted_vec_map::SortedVecMap;
use parti_votes::state::PartiVotesState;

fn nth(n: u32) -> Address {
    let mut identifier = [0u8; 20];
    identifier[16..20].copy_from_slice(&n.to_be_bytes());
    Address { address_type: AddressType::Account, identifier }
}

fn total(tally: &SortedVecMap<u32, u64>) -> u64 {
    let mut sum = 0;
    let mut i = 0;
    while i < tally.len() {
        sum += *tally.value_at(i);
        i += 1;
    }
    sum
}

fn receipts_of_kind(state: &PartiVotesState, poll_id: u64, voters: u32, public: bool) -> u64 {
    let mut found = 0;
    for n in 0..voters {
        match state.receipt(poll_id, &nth(n)) {
            Some(Receipt::Public { .. }) if public => found += 1,
            Some(Receipt::Private) if !public => found += 1,
            _ => {}
        }
    }
    found
}

#[test]
fn tallies_sum_to_the_receipts_of_their_kind() {
    let creator = nth(1000);
    let open = |sender: Address, amount: u64| ContractContext {
        sender,
        amount,
        block_production_time: 10,
    };
    let (state, _) = initialize(open(creator, 0));
    let params = CreatePollParams {
        title: "t".to_string(),
        description: "d".to_string(),
        options: vec!["a".to_string(), "b".to_string(), "c".to_string()],
        expires_at: 1_000,
    };
    let (mut state, outcome) = create_poll(open(creator, 100), state, params);
    assert!(outcome.is_ok());
    let voters = 40;
    for n in 0..voters {
        let params = VoteParams { poll_id: 0, option_index: n % 3, signature: None };
        let (next, outcome) = if n % 4 == 0 {
            vote_with_mpc(open(nth(n), 100), state, params)
        } else {
            vote_with_signature(open(nth(n), 0), state, params)
        };
        assert!(outcome.is_ok());
        state = next;
        let poll = state.poll(0).unwrap();
        assert_eq!(poll.public_vote_counts.len(), 3);
        assert_eq!(total(&poll.public_vote_counts), receipts_of_kind(&state, 0, voters, true));
        assert_eq!(
            total(state.private_tally(0).unwrap()),
            receipts_of_kind(&state, 0, voters, false)
        );
        for option in 0..3u32 {
            let mut for_option = 0;
            for m in 0..voters {
                if state.receipt(0, &nth(m)) == Some(Receipt::Public { option_index: option }) {
                    for_option += 1;
                }
            }
            assert_eq!(poll.public_vote_counts.get(&option), Some(&for_option));
        }
    }
    let poll = state.poll(0).unwrap();
    assert_eq!(total(&poll.public_vote_counts), 30);
    assert_eq!(total(state.private_tally(0).unwrap()), 10);
    // n = 1, 2, 5, 6, 7, ... vote in public; of those 10 choose each option.
    assert_eq!(poll.public_vote_counts.get(&0), Some(&10));
    assert_eq!(poll.public_vote_counts.get(&1), Some(&10));
    assert_eq!(poll.public_vote_counts.get(&2), Some(&10));
    // n = 0, 4, 8, ... vote in private: 0, 12, 24, 36 choose option 0.
    assert_eq!(state.private_tally(0).unwrap().get(&0), Some(&4));
    assert_eq!(state.private_tally(0).unwrap().get(&1), Some(&3));
    assert_eq!(state.private_tally(0).unwrap().get(&2), Some(&3));
}

#[test]
fn zeroed_tally_has_one_zero_for_each_option() {
    let tally = zeroed_tally(4);
    assert_eq!(tally.len(), 4);
    for i in 0..4u32 {
        assert_eq!(tally.get(&i), Some(&0));
        assert_eq!(tally.key_at(i as usize), i);
    }
    assert_eq!(tally.get(&4), None);
    assert_eq!(zeroed_tally(0).len(), 0);
}

#[test]
fn increment_adds_one_and_starts_a_missing_option_at_zero() {
    let mut tally = zeroed_tally(2);
    increment(&mut tally, 1);
    increment(&mut tally, 1);
    assert_eq!(tally.get(&0), Some(&0));
    assert_eq!(tally.get(&1), Some(&2));
    increment(&mut tally, 7);
    assert_eq!(tally.get(&7), Some(&1));
    assert_eq!(tally.len(), 3);
}

#[test]
fn record_refuses_a_second_receipt() {
    let mut votes = SortedVecMap::new();
    assert!(!has_receipt(&votes, 3, &nth(1)));
    assert_eq!(record(&mut votes, 3, nth(1), Receipt::Public { option_index: 2 }), Ok(()));
    assert!(has_receipt(&votes, 3, &nth(1)));
    assert!(!has_receipt(&votes, 3, &nth(2)));
    assert!(!has_receipt(&votes, 4, &nth(1)));
    assert_eq!(record(&mut votes, 3, nth(1), Receipt::Private), Err(ContractError::AlreadyVoted));
    assert_eq!(votes.get(&3).unwrap().get(&nth(1)), Some(&Receipt::Public { option_index: 2 }));
    assert_eq!(votes.get(&3).unwrap().len(), 1);
    assert_eq!(record(&mut votes, 3, nth(2), Receipt::Private), Ok(()));
    assert_eq!(record(&mut votes, 4, nth(1), Receipt::Private), Ok(()));
    assert_eq!(votes.len(), 2);
    assert_eq!(votes.get(&3).unwrap().len(), 2);
}

#[test]
fn private_votes_for_different_options_leave_the_same_ledger() {
    let run = |option_index: u32| {
        let open = |sender: Address, amount: u64| ContractContext {
            sender,
            amount,
            block_production_time: 10,
        };
        let (state, _) = initialize(open(nth(0), 0));
        let params = CreatePollParams {
            title: "t".to_string(),
            description: "d".to_string(),
            options: vec!["a".to_string(), "b".to_string()],
            expires_at: 1_000,
        };
        let (state, _) = create_poll(open(nth(0), 100), state, params);
        let params = VoteParams { poll_id: 0, option_index, signature: None };
        let (state, outcome) = vote_with_mpc(open(nth(5), 100), state, params);
        (state, outcome)
    };
    let (first, first_outcome) = run(0);
    let (second, second_outcome) = run(1);
    assert_eq!(first_outcome, second_outcome);
    assert_eq!(first.receipt(0, &nth(5)), second.receipt(0, &nth(5)));
    assert_eq!(first.receipt(0, &nth(5)), Some(Receipt::Private));
    assert_eq!(first.poll(0), second.poll(0));
    assert_ne!(first.private_tally(0), second.private_tally(0));
}
