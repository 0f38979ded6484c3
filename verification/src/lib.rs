//! A ledger-resident poll and voting state machine.
//!
//! Every operation is a pure transition: it takes the current contract state,
//! an authenticated context and a parameter payload, and hands back the next
//! state together with either the notifications to deliver or the reason the
//! transaction was refused. A refused transaction leaves the state as it was.

pub mod address;
pub mod audit;
pub mod contract;
pub mod laws;
pub mod ledger;
pub mod model;
pub mod notification;
pub mod poll;
pub mod sorted_vec_map;
pub mod state;
pub mod tally;
pub mod validity;

pub use crate::address::Address;
pub use crate::address::AddressType;
pub use crate::contract::create_poll;
pub use crate::contract::end_poll;
pub use crate::contract::get_poll;
pub use crate::contract::get_poll_results;
pub use crate::contract::get_polls;
pub use crate::contract::has_voted;
pub use crate::contract::initialize;
pub use crate::contract::vote_with_mpc;
pub use crate::contract::vote_with_signature;
pub use crate::contract::ContractContext;
pub use crate::contract::CreatePollParams;
pub use crate::contract::EndPollParams;
pub use crate::contract::GetPollResultsParams;
pub use crate::contract::Outcome;
pub use crate::contract::VoteParams;
pub use crate::model::ContractError;
pub use crate::model::CreationFault;
pub use crate::model::Receipt;
pub use crate::notification::Notification;
pub use crate::poll::Poll;
pub use crate::sorted_vec_map::SortedVecMap;
pub use crate::state::PartiVotesState;
pub use crate::state::StateParts;
