//! What an accepted transaction tells the outside world.

use vstd::prelude::*;
use crate::address::Address;
use crate::model::NotificationView;
use crate::model::PollView;
use crate::poll::Poll;
use crate::sorted_vec_map::SortedVecMap;

verus! {

/// A notification that the hosting environment is to deliver.
#[derive(Debug, PartialEq, Eq)]
pub enum Notification {
    /// A poll was created.
    PollCreated { poll_id: u64, creator: Address, title: String },
    /// A public vote was cast; the chosen option is part of the notice.
    PublicVoteCast { poll_id: u64, voter: Address, option: u32 },
    /// A private vote was cast; the notice names the voter, never the option.
    PrivateVoteCast { poll_id: u64, voter: Address },
    /// The creator ended the poll.
    PollEnded { poll_id: u64, ended_by: Address },
    /// All polls, in the order of their identifiers.
    PollsList { polls: Vec<Poll> },
    /// One poll.
    PollDetails { poll: Poll },
    /// Both tallies of one poll.
    PollResults {
        poll_id: u64,
        public_votes: SortedVecMap<u32, u64>,
        private_votes: SortedVecMap<u32, u64>,
    },
    /// Whether the asking identity has voted in the poll.
    HasVoted { poll_id: u64, user: Address, has_voted: bool },
}

/// The polls of a list as mathematical values.
pub open spec fn poll_views(polls: Seq<Poll>) -> Seq<PollView> {
    Seq::new(polls.len(), |i: int| polls[i]@)
}

impl View for Notification {
    type V = NotificationView;

    open spec fn view(&self) -> NotificationView {
        match *self {
            Notification::PollCreated { poll_id, creator, title } => NotificationView::PollCreated {
                poll_id,
                creator,
                title: title@,
            },
            Notification::PublicVoteCast {
                poll_id,
                voter,
                option,
            } => NotificationView::PublicVoteCast { poll_id, voter, option },
            Notification::PrivateVoteCast { poll_id, voter } => NotificationView::PrivateVoteCast {
                poll_id,
                voter,
            },
            Notification::PollEnded { poll_id, ended_by } => NotificationView::PollEnded {
                poll_id,
                ended_by,
            },
            Notification::PollsList { polls } => NotificationView::PollsList {
                polls: poll_views(polls@),
            },
            Notification::PollDetails { poll } => NotificationView::PollDetails { poll: poll@ },
            Notification::PollResults {
                poll_id,
                public_votes,
                private_votes,
            } => NotificationView::PollResults {
                poll_id,
                public_votes: public_votes@,
                private_votes: private_votes@,
            },
            Notification::HasVoted { poll_id, user, has_voted } => NotificationView::HasVoted {
                poll_id,
                user,
                has_voted,
            },
        }
    }
}

/// The notifications of a list as mathematical values.
pub open spec fn notification_views(events: Seq<Notification>) -> Seq<NotificationView> {
    Seq::new(events.len(), |i: int| events[i]@)
}

/// A list that holds one notification.
pub fn single(event: Notification) -> (events: Vec<Notification>)
    ensures
        notification_views(events@) == seq![event@],
{
    let mut events: Vec<Notification> = Vec::new();
    events.push(event);
    assert(notification_views(events@) =~= seq![event@]);
    events
}

} // verus!
