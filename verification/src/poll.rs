//! A poll as the registry stores it.

use vstd::prelude::*;
use crate::address::Address;
use crate::model::PollView;
use crate::sorted_vec_map::SortedVecMap;

verus! {

/// A voting contest with fixed options and a deadline.
#[derive(Debug, PartialEq, Eq)]
pub struct Poll {
    /// Unique identifier, assigned at creation.
    pub id: u64,
    /// Who created the poll.
    pub creator: Address,
    pub title: String,
    pub description: String,
    /// The option labels; an option is addressed by its index.
    pub options: Vec<String>,
    pub created_at: u64,
    pub expires_at: u64,
    /// Whether the creator has not ended the poll. Expiry does not clear it.
    pub active: bool,
    /// The number of public votes for each option index.
    pub public_vote_counts: SortedVecMap<u32, u64>,
}

/// The texts of a sequence of strings.
pub open spec fn texts(strings: Seq<String>) -> Seq<Seq<char>> {
    Seq::new(strings.len(), |i: int| strings[i]@)
}

impl View for Poll {
    type V = PollView;

    open spec fn view(&self) -> PollView {
        PollView {
            id: self.id,
            creator: self.creator,
            title: self.title@,
            description: self.description@,
            options: texts(self.options@),
            created_at: self.created_at,
            expires_at: self.expires_at,
            active: self.active,
            public_vote_counts: self.public_vote_counts@,
        }
    }
}

/// A copy of a list of strings.
pub fn copy_strings(strings: &Vec<String>) -> (copy: Vec<String>)
    ensures
        texts(copy@) == texts(strings@),
{
    let mut copy: Vec<String> = Vec::new();
    let mut i: usize = 0;
    while i < strings.len()
        invariant
            i <= strings@.len(),
            copy@.len() == i,
            forall|j: int| 0 <= j < i ==> copy@[j]@ == strings@[j]@,
        decreases strings@.len() - i,
    {
        copy.push(strings[i].clone());
        i += 1;
    }
    assert(texts(copy@) =~= texts(strings@));
    copy
}

impl Clone for Poll {
    /// A copy that stands for the same poll.
    fn clone(&self) -> (copy: Self)
        ensures
            copy@ == self@,
    {
        Poll {
            id: self.id,
            creator: self.creator,
            title: self.title.clone(),
            description: self.description.clone(),
            options: copy_strings(&self.options),
            created_at: self.created_at,
            expires_at: self.expires_at,
            active: self.active,
            public_vote_counts: self.public_vote_counts.clone(),
        }
    }
}

} // verus!
