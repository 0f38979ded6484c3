//! The receipt ledger and the tally engine: the two places where a vote is
//! written down.

use vstd::prelude::*;
use crate::address::Address;
use crate::model::bump;
use crate::model::count_of;
use crate::model::ledger_row;
use crate::model::record_receipt;
use crate::model::zero_tally;
use crate::model::ContractError;
use crate::model::MAX_OPTIONS;
use crate::model::Receipt;
use crate::sorted_vec_map::SortedVecMap;
use crate::state::lemma_rows_view_insert;
use crate::state::lemma_rows_view_remove;
use crate::state::rows_view;

verus! {

/// The tally of `n` options with a zero count for each.
pub fn zeroed_tally(n: usize) -> (tally: SortedVecMap<u32, u64>)
    requires
        n <= MAX_OPTIONS,
    ensures
        tally@ == zero_tally(n as nat),
{
    let mut tally: SortedVecMap<u32, u64> = SortedVecMap::new();
    let mut i: usize = 0;
    assert(tally@ =~= zero_tally(0));
    while i < n
        invariant
            i <= n <= MAX_OPTIONS,
            tally@ == zero_tally(i as nat),
        decreases n - i,
    {
        tally.insert(i as u32, 0);
        assert(tally@ =~= zero_tally((i + 1) as nat));
        i += 1;
    }
    tally
}

/// Counts one more vote for `option_index`. An option without an entry is
/// taken to stand at zero.
pub fn increment(counts: &mut SortedVecMap<u32, u64>, option_index: u32)
    requires
        count_of(old(counts)@, option_index) < u64::MAX,
    ensures
        final(counts)@ == bump(old(counts)@, option_index),
{
    let current: u64 = match counts.get(&option_index) {
        Some(count) => *count,
        None => 0,
    };
    counts.insert(option_index, current + 1);
}

/// Whether the ledger holds a receipt of `voter` for the poll.
pub fn has_receipt(
    votes: &SortedVecMap<u64, SortedVecMap<Address, Receipt>>,
    poll_id: u64,
    voter: &Address,
) -> (found: bool)
    ensures
        found == ledger_row(rows_view(votes@), poll_id).contains_key(*voter),
{
    match votes.get(&poll_id) {
        Some(row) => row.contains_key(voter),
        None => false,
    }
}

/// Writes down that `voter` voted in the poll. A voter who already has a
/// receipt for the poll is refused, and the ledger stays as it was. The row
/// of a poll is made when its first receipt comes.
pub fn record(
    votes: &mut SortedVecMap<u64, SortedVecMap<Address, Receipt>>,
    poll_id: u64,
    voter: Address,
    receipt: Receipt,
) -> (outcome: Result<(), ContractError>)
    ensures
        outcome is Err <==> ledger_row(rows_view(old(votes)@), poll_id).contains_key(voter),
        outcome matches Err(e) ==> e == ContractError::AlreadyVoted && *final(votes) == *old(votes),
        outcome is Ok ==> rows_view(final(votes)@) == record_receipt(
            rows_view(old(votes)@),
            poll_id,
            voter,
            receipt,
        ),
        outcome is Ok ==> ledger_row(rows_view(old(votes)@), poll_id).dom().finite()
            && ledger_row(rows_view(old(votes)@), poll_id).dom().len() < usize::MAX,
{
    if has_receipt(votes, poll_id, &voter) {
        return Err(ContractError::AlreadyVoted);
    }
    let ghost before = votes@;
    let mut row = match votes.remove(&poll_id) {
        Some(row) => row,
        None => SortedVecMap::new(),
    };
    let ghost old_row = row@;
    assert(old_row == ledger_row(rows_view(before), poll_id));
    let entries_before = row.len();
    row.insert(voter, receipt);
    let entries_after = row.len();
    votes.insert(poll_id, row);
    proof {
        lemma_rows_view_remove(before, poll_id);
        lemma_rows_view_insert(before.remove(poll_id), poll_id, row);
        assert(rows_view(votes@) =~= record_receipt(rows_view(before), poll_id, voter, receipt));
    }
    Ok(())
}

} // verus!
