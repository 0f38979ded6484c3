//! The mathematical model of the contract: what a state is, when it is
//! valid, and what each transaction makes of it.

use vstd::prelude::*;
use crate::address::Address;

verus! {

/// The payment that creating a poll or casting a private vote costs.
pub const REQUIRED_PAYMENT: u64 = 100;

/// The most options that a poll can have: as many as there are option
/// indices.
pub const MAX_OPTIONS: u64 = 0x1_0000_0000;

/// Why a transaction was refused.
#[derive(Clone, Copy, Debug, PartialEq, Eq)]
pub enum ContractError {
    /// The attached payment is below the required amount.
    InsufficientPayment,
    /// Empty text, too few options, a deadline that is not in the future, an
    /// option index that the poll does not have, or ending an ended poll.
    ValidationError,
    /// There is no poll with the given identifier.
    NotFound,
    /// Someone other than the creator tried to end the poll.
    Unauthorized,
    /// The voter already has a receipt for the poll.
    AlreadyVoted,
    /// The poll's deadline has passed.
    PollExpired,
    /// The poll was ended by its creator.
    PollInactive,
}

/// What the ledger keeps of one vote. A private vote leaves a marker of its
/// own, which holds no option, so it cannot be taken for a public vote.
#[derive(Clone, Copy, Debug, PartialEq, Eq)]
pub enum Receipt {
    /// An open vote for the option with the given index.
    Public { option_index: u32 },
    /// A vote whose choice is not disclosed.
    Private,
}

/// A poll as a mathematical value.
pub struct PollView {
    pub id: u64,
    pub creator: Address,
    pub title: Seq<char>,
    pub description: Seq<char>,
    pub options: Seq<Seq<char>>,
    pub created_at: u64,
    pub expires_at: u64,
    pub active: bool,
    pub public_vote_counts: Map<u32, u64>,
}

/// The contract state as a mathematical value.
pub struct StateView {
    pub owner: Address,
    pub polls: Map<u64, PollView>,
    pub poll_counter: u64,
    pub votes: Map<u64, Map<Address, Receipt>>,
    pub private_vote_counts: Map<u64, Map<u32, u64>>,
}

/// The sum of the counts of the options `0 .. n`.
pub open spec fn tally_total(counts: Map<u32, u64>, n: nat) -> nat
    decreases n,
{
    if n == 0 {
        0
    } else {
        counts[(n - 1) as u32] as nat + tally_total(counts, (n - 1) as nat)
    }
}

/// The tally has exactly one entry for each option index below `n`.
pub open spec fn covers_options(counts: Map<u32, u64>, n: nat) -> bool {
    forall|i: u32| counts.contains_key(i) <==> (i as nat) < n
}

/// The tally of `n` options in which nobody has voted.
pub open spec fn zero_tally(n: nat) -> Map<u32, u64> {
    Map::new(|i: u32| (i as nat) < n, |i: u32| 0u64)
}

/// The count that a tally holds for an option; an option without an entry
/// counts as zero.
pub open spec fn count_of(counts: Map<u32, u64>, option_index: u32) -> u64 {
    if counts.contains_key(option_index) {
        counts[option_index]
    } else {
        0
    }
}

/// The tally after one more vote for `option_index`.
pub open spec fn bump(counts: Map<u32, u64>, option_index: u32) -> Map<u32, u64> {
    counts.insert(option_index, (count_of(counts, option_index) + 1) as u64)
}

/// The voters of a ledger row whose receipt is a public one.
pub open spec fn public_voters(row: Map<Address, Receipt>) -> Set<Address> {
    Set::new(|a: Address| row.contains_key(a) && row[a] is Public)
}

/// The voters of a ledger row whose receipt is a private one.
pub open spec fn private_voters(row: Map<Address, Receipt>) -> Set<Address> {
    Set::new(|a: Address| row.contains_key(a) && row[a] is Private)
}

/// The voters of a ledger row whose receipt is a public one for the option.
pub open spec fn voters_for(row: Map<Address, Receipt>, option_index: u32) -> Set<Address> {
    Set::new(|a: Address| row.contains_key(a) && row[a] == Receipt::Public { option_index })
}

/// The row of a poll in a ledger: who has voted in it, and with what receipt.
/// A poll without a row has no voters.
pub open spec fn ledger_row(votes: Map<u64, Map<Address, Receipt>>, poll_id: u64) -> Map<
    Address,
    Receipt,
> {
    if votes.contains_key(poll_id) {
        votes[poll_id]
    } else {
        Map::empty()
    }
}

impl PollView {
    /// What holds of every poll from its creation on.
    pub open spec fn well_formed(self) -> bool {
        &&& self.title.len() > 0
        &&& self.description.len() > 0
        &&& 2 <= self.options.len() <= MAX_OPTIONS
        &&& self.created_at < self.expires_at
        &&& covers_options(self.public_vote_counts, self.options.len())
    }

    /// The poll with one more public vote for `option_index`.
    pub open spec fn with_vote(self, option_index: u32) -> PollView {
        PollView { public_vote_counts: bump(self.public_vote_counts, option_index), ..self }
    }

    /// The poll after its creator has ended it.
    pub open spec fn ended(self) -> PollView {
        PollView { active: false, ..self }
    }
}

/// The poll that a creation request describes, as it stands right after its
/// creation: active, with a zero count for each option.
pub open spec fn new_poll(
    id: u64,
    creator: Address,
    title: Seq<char>,
    description: Seq<char>,
    options: Seq<Seq<char>>,
    now: u64,
    expires_at: u64,
) -> PollView {
    PollView {
        id,
        creator,
        title,
        description,
        options,
        created_at: now,
        expires_at,
        active: true,
        public_vote_counts: zero_tally(options.len()),
    }
}

impl StateView {
    /// The ledger row of a poll.
    pub open spec fn receipts_of(self, poll_id: u64) -> Map<Address, Receipt> {
        ledger_row(self.votes, poll_id)
    }

    /// Whether `voter` has a receipt for the poll.
    pub open spec fn has_voted(self, poll_id: u64, voter: Address) -> bool {
        self.receipts_of(poll_id).contains_key(voter)
    }

    /// The private tally of a poll. A poll without a private row has the
    /// all-zero tally of its options.
    pub open spec fn private_tally_of(self, poll_id: u64) -> Map<u32, u64> {
        if self.private_vote_counts.contains_key(poll_id) {
            self.private_vote_counts[poll_id]
        } else {
            zero_tally(self.polls[poll_id].options.len())
        }
    }

    /// The invariant of the contract state. Every state that the operations
    /// produce is valid: the polls are those with the identifiers below the
    /// counter, each stored under its own identifier and consistent with its
    /// ledger row and its private tally, and neither the ledger nor the
    /// private tallies hold a row for a poll that does not exist.
    pub open spec fn valid(self) -> bool {
        &&& self.polls.dom().finite()
        &&& self.polls.dom().len() == self.poll_counter
        &&& forall|id: u64| self.polls.contains_key(id) <==> id < self.poll_counter
        &&& forall|id: u64| #[trigger]
            self.polls.contains_key(id) ==> self.polls[id].id == id && poll_consistent(
                self.polls[id],
                self.receipts_of(id),
                self.private_tally_of(id),
            )
        &&& forall|id: u64| #[trigger] self.votes.contains_key(id) ==> self.polls.contains_key(id)
        &&& forall|id: u64| #[trigger]
            self.private_vote_counts.contains_key(id) ==> self.polls.contains_key(id)
    }
}

/// A poll, its ledger row and its private tally fit together: the poll is
/// well formed, every public receipt names an option of the poll, the
/// private tally has one count for each option, the public count of each
/// option is the number of public receipts for it, the public counts sum to
/// the number of public receipts, and the private counts to that of private
/// ones.
pub open spec fn poll_consistent(
    poll: PollView,
    receipts: Map<Address, Receipt>,
    private_tally: Map<u32, u64>,
) -> bool {
    &&& poll.well_formed()
    &&& receipts.dom().finite()
    &&& forall|voter: Address| #[trigger]
        receipts.contains_key(voter) ==> (receipts[voter] matches Receipt::Public {
            option_index,
        } ==> (option_index as nat) < poll.options.len())
    &&& covers_options(private_tally, poll.options.len())
    &&& forall|i: u32|
        (i as nat) < poll.options.len() ==> poll.public_vote_counts[i] == (#[trigger] voters_for(
            receipts,
            i,
        )).len()
    &&& tally_total(poll.public_vote_counts, poll.options.len()) == public_voters(receipts).len()
    &&& tally_total(private_tally, poll.options.len()) == private_voters(receipts).len()
}

/// The state of a freshly deployed contract.
pub open spec fn initial_state(owner: Address) -> StateView {
    StateView {
        owner,
        polls: Map::empty(),
        poll_counter: 0,
        votes: Map::empty(),
        private_vote_counts: Map::empty(),
    }
}

/// What is wrong with a request to create a poll.
#[derive(Clone, Copy, Debug, PartialEq, Eq)]
pub enum CreationFault {
    /// The title is empty.
    EmptyTitle,
    /// The description is empty.
    EmptyDescription,
    /// There are fewer than two options.
    TooFewOptions,
    /// The deadline does not lie after the current time.
    DeadlineNotAhead,
}

/// What is wrong with a request to create a poll, if anything is: the first
/// of the faults, in the order in which they are tested.
pub open spec fn creation_fault(
    now: u64,
    title: Seq<char>,
    description: Seq<char>,
    options: Seq<Seq<char>>,
    expires_at: u64,
) -> Option<CreationFault> {
    if title.len() == 0 {
        Some(CreationFault::EmptyTitle)
    } else if description.len() == 0 {
        Some(CreationFault::EmptyDescription)
    } else if options.len() < 2 {
        Some(CreationFault::TooFewOptions)
    } else if expires_at <= now {
        Some(CreationFault::DeadlineNotAhead)
    } else {
        None
    }
}

/// Why a request to create a poll is refused, if it is: for want of
/// payment first, and then as invalid where something is wrong with it.
pub open spec fn create_poll_refusal(
    amount: u64,
    now: u64,
    title: Seq<char>,
    description: Seq<char>,
    options: Seq<Seq<char>>,
    expires_at: u64,
) -> Option<ContractError> {
    if amount < REQUIRED_PAYMENT {
        Some(ContractError::InsufficientPayment)
    } else if creation_fault(now, title, description, options, expires_at) is Some {
        Some(ContractError::ValidationError)
    } else {
        None
    }
}

/// The state after an accepted request to create a poll: the poll takes the
/// counter's value as its identifier, the counter moves on, and the poll's
/// private tally starts at zero.
pub open spec fn create_poll_next(
    s: StateView,
    creator: Address,
    now: u64,
    title: Seq<char>,
    description: Seq<char>,
    options: Seq<Seq<char>>,
    expires_at: u64,
) -> StateView {
    StateView {
        polls: s.polls.insert(
            s.poll_counter,
            new_poll(s.poll_counter, creator, title, description, options, now, expires_at),
        ),
        poll_counter: (s.poll_counter + 1) as u64,
        private_vote_counts: s.private_vote_counts.insert(
            s.poll_counter,
            zero_tally(options.len()),
        ),
        ..s
    }
}

/// Why a ballot cannot be taken, whoever casts it: the poll is missing, was
/// ended, has expired, or lacks the option. The conditions are tested in
/// this order.
pub open spec fn ballot_refusal(s: StateView, now: u64, poll_id: u64, option_index: u32) -> Option<
    ContractError,
> {
    if !s.polls.contains_key(poll_id) {
        Some(ContractError::NotFound)
    } else if !s.polls[poll_id].active {
        Some(ContractError::PollInactive)
    } else if now >= s.polls[poll_id].expires_at {
        Some(ContractError::PollExpired)
    } else if (option_index as nat) >= s.polls[poll_id].options.len() {
        Some(ContractError::ValidationError)
    } else {
        None
    }
}

/// Why a vote is refused, if it is. Both ways of voting test the conditions
/// on the ballot first, and then that the voter has no receipt for the poll.
pub open spec fn vote_refusal(
    s: StateView,
    voter: Address,
    now: u64,
    poll_id: u64,
    option_index: u32,
) -> Option<ContractError> {
    match ballot_refusal(s, now, poll_id, option_index) {
        Some(e) => Some(e),
        None => if s.has_voted(poll_id, voter) {
            Some(ContractError::AlreadyVoted)
        } else {
            None
        },
    }
}

/// Why a private vote is refused, if it is. A private vote is tested as a
/// public one is, in the same order; a vote that passes those tests is then
/// refused for want of payment.
pub open spec fn private_vote_refusal(
    s: StateView,
    voter: Address,
    amount: u64,
    now: u64,
    poll_id: u64,
    option_index: u32,
) -> Option<ContractError> {
    match vote_refusal(s, voter, now, poll_id, option_index) {
        Some(e) => Some(e),
        None => if amount < REQUIRED_PAYMENT {
            Some(ContractError::InsufficientPayment)
        } else {
            None
        },
    }
}

/// The ledger after `voter` got `receipt` for the poll.
pub open spec fn record_receipt(
    votes: Map<u64, Map<Address, Receipt>>,
    poll_id: u64,
    voter: Address,
    receipt: Receipt,
) -> Map<u64, Map<Address, Receipt>> {
    votes.insert(poll_id, ledger_row(votes, poll_id).insert(voter, receipt))
}

/// The state after an accepted public vote: the receipt holds the option, and
/// the poll's public count for the option went up by one.
pub open spec fn public_vote_next(
    s: StateView,
    voter: Address,
    poll_id: u64,
    option_index: u32,
) -> StateView {
    StateView {
        polls: s.polls.insert(poll_id, s.polls[poll_id].with_vote(option_index)),
        votes: record_receipt(s.votes, poll_id, voter, Receipt::Public { option_index }),
        ..s
    }
}

/// The state after an accepted private vote: the receipt holds no option,
/// and the poll's private count for the option went up by one.
pub open spec fn private_vote_next(
    s: StateView,
    voter: Address,
    poll_id: u64,
    option_index: u32,
) -> StateView {
    StateView {
        votes: record_receipt(s.votes, poll_id, voter, Receipt::Private),
        private_vote_counts: s.private_vote_counts.insert(
            poll_id,
            bump(s.private_tally_of(poll_id), option_index),
        ),
        ..s
    }
}

/// Why a request to end a poll is refused, if it is.
pub open spec fn end_poll_refusal(s: StateView, sender: Address, poll_id: u64) -> Option<
    ContractError,
> {
    if !s.polls.contains_key(poll_id) {
        Some(ContractError::NotFound)
    } else if s.polls[poll_id].creator != sender {
        Some(ContractError::Unauthorized)
    } else if !s.polls[poll_id].active {
        Some(ContractError::ValidationError)
    } else {
        None
    }
}

/// The state after the creator ended the poll.
pub open spec fn end_poll_next(s: StateView, poll_id: u64) -> StateView {
    StateView { polls: s.polls.insert(poll_id, s.polls[poll_id].ended()), ..s }
}

/// All polls of a valid state, in the order of their identifiers.
pub open spec fn polls_in_order(s: StateView) -> Seq<PollView> {
    Seq::new(s.poll_counter as nat, |i: int| s.polls[i as u64])
}

/// A transaction that can change the state, with its parameters.
pub enum Transaction {
    CreatePoll {
        title: Seq<char>,
        description: Seq<char>,
        options: Seq<Seq<char>>,
        expires_at: u64,
    },
    PublicVote { poll_id: u64, option_index: u32 },
    PrivateVote { poll_id: u64, option_index: u32 },
    EndPoll { poll_id: u64 },
}

/// Why a transaction is refused, if it is.
pub open spec fn refusal(s: StateView, sender: Address, amount: u64, now: u64, tx: Transaction) -> Option<
    ContractError,
> {
    match tx {
        Transaction::CreatePoll {
            title,
            description,
            options,
            expires_at,
        } => create_poll_refusal(amount, now, title, description, options, expires_at),
        Transaction::PublicVote { poll_id, option_index } => vote_refusal(
            s,
            sender,
            now,
            poll_id,
            option_index,
        ),
        Transaction::PrivateVote { poll_id, option_index } => private_vote_refusal(
            s,
            sender,
            amount,
            now,
            poll_id,
            option_index,
        ),
        Transaction::EndPoll { poll_id } => end_poll_refusal(s, sender, poll_id),
    }
}

/// The state after a transaction: a refused transaction leaves the state as
/// it was, an accepted one changes it as its kind says.
pub open spec fn step(s: StateView, sender: Address, amount: u64, now: u64, tx: Transaction) -> StateView {
    if refusal(s, sender, amount, now, tx) is Some {
        s
    } else {
        match tx {
            Transaction::CreatePoll {
                title,
                description,
                options,
                expires_at,
            } => create_poll_next(s, sender, now, title, description, options, expires_at),
            Transaction::PublicVote { poll_id, option_index } => public_vote_next(
                s,
                sender,
                poll_id,
                option_index,
            ),
            Transaction::PrivateVote { poll_id, option_index } => private_vote_next(
                s,
                sender,
                poll_id,
                option_index,
            ),
            Transaction::EndPoll { poll_id } => end_poll_next(s, poll_id),
        }
    }
}

/// A notification as a mathematical value.
pub enum NotificationView {
    PollCreated { poll_id: u64, creator: Address, title: Seq<char> },
    PublicVoteCast { poll_id: u64, voter: Address, option: u32 },
    PrivateVoteCast { poll_id: u64, voter: Address },
    PollEnded { poll_id: u64, ended_by: Address },
    PollsList { polls: Seq<PollView> },
    PollDetails { poll: PollView },
    PollResults { poll_id: u64, public_votes: Map<u32, u64>, private_votes: Map<u32, u64> },
    HasVoted { poll_id: u64, user: Address, has_voted: bool },
}

} // verus!
