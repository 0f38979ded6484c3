//! Facts about tallies and about the voters of a ledger row.

use vstd::prelude::*;
use crate::address::Address;
use crate::model::private_voters;
use crate::model::public_voters;
use crate::model::tally_total;
use crate::model::voters_for;
use crate::model::zero_tally;
use crate::model::Receipt;

verus! {

/// Writing `value` for option `i` changes the total by the difference to the
/// old count; an option outside `0 .. n` does not enter the total.
pub proof fn lemma_total_after_insert(counts: Map<u32, u64>, n: nat, i: u32, value: u64)
    requires
        n <= u32::MAX + 1,
    ensures
        (i as nat) < n ==> tally_total(counts.insert(i, value), n) == tally_total(counts, n)
            - counts[i] + value,
        (i as nat) >= n ==> tally_total(counts.insert(i, value), n) == tally_total(counts, n),
    decreases n,
{
    if n > 0 {
        lemma_total_after_insert(counts, (n - 1) as nat, i, value);
    }
}

/// A tally of zeros sums to zero.
pub proof fn lemma_zero_tally_total(n: nat, m: nat)
    requires
        m <= n <= u32::MAX + 1,
    ensures
        tally_total(zero_tally(n), m) == 0,
    decreases m,
{
    if m > 0 {
        lemma_zero_tally_total(n, (m - 1) as nat);
    }
}

/// No single count exceeds the total.
pub proof fn lemma_count_within_total(counts: Map<u32, u64>, n: nat, i: u32)
    requires
        (i as nat) < n <= u32::MAX + 1,
    ensures
        counts[i] <= tally_total(counts, n),
    decreases n,
{
    if (i as nat) < n - 1 {
        lemma_count_within_total(counts, (n - 1) as nat, i);
    }
}

/// The public and the private voters of a finite row are finite sets, and
/// neither has more members than the row has entries.
pub proof fn lemma_voters_bounded(row: Map<Address, Receipt>)
    requires
        row.dom().finite(),
    ensures
        public_voters(row).finite(),
        private_voters(row).finite(),
        public_voters(row).len() <= row.dom().len(),
        private_voters(row).len() <= row.dom().len(),
{
    assert(public_voters(row).subset_of(row.dom()));
    assert(private_voters(row).subset_of(row.dom()));
    vstd::set_lib::lemma_len_subset(public_voters(row), row.dom());
    vstd::set_lib::lemma_len_subset(private_voters(row), row.dom());
}

/// A first receipt that is public adds its voter to the public voters and
/// leaves the private voters as they were.
pub proof fn lemma_record_public(row: Map<Address, Receipt>, voter: Address, option_index: u32)
    requires
        row.dom().finite(),
        !row.contains_key(voter),
    ensures
        public_voters(row.insert(voter, Receipt::Public { option_index })).len() == public_voters(
            row,
        ).len() + 1,
        private_voters(row.insert(voter, Receipt::Public { option_index })) == private_voters(
            row,
        ),
{
    let after = row.insert(voter, Receipt::Public { option_index });
    lemma_voters_bounded(row);
    assert(public_voters(after) =~= public_voters(row).insert(voter));
    assert(private_voters(after) =~= private_voters(row));
}

/// A first receipt that is private adds its voter to the private voters and
/// leaves the public voters as they were.
pub proof fn lemma_record_private(row: Map<Address, Receipt>, voter: Address)
    requires
        row.dom().finite(),
        !row.contains_key(voter),
    ensures
        private_voters(row.insert(voter, Receipt::Private)).len() == private_voters(row).len()
            + 1,
        public_voters(row.insert(voter, Receipt::Private)) == public_voters(row),
{
    let after = row.insert(voter, Receipt::Private);
    lemma_voters_bounded(row);
    assert(private_voters(after) =~= private_voters(row).insert(voter));
    assert(public_voters(after) =~= public_voters(row));
}

/// A first receipt adds its voter to the voters for its option, if it is a
/// public one, and leaves the voters for every other option as they were.
pub proof fn lemma_record_for_option(
    row: Map<Address, Receipt>,
    voter: Address,
    receipt: Receipt,
    option_index: u32,
)
    requires
        row.dom().finite(),
        !row.contains_key(voter),
    ensures
        voters_for(row, option_index).finite(),
        voters_for(row, option_index).len() <= row.dom().len(),
        receipt == (Receipt::Public { option_index }) ==> voters_for(
            row.insert(voter, receipt),
            option_index,
        ).len() == voters_for(row, option_index).len() + 1,
        receipt != (Receipt::Public { option_index }) ==> voters_for(
            row.insert(voter, receipt),
            option_index,
        ) == voters_for(row, option_index),
{
    let after = row.insert(voter, receipt);
    assert(voters_for(row, option_index).subset_of(row.dom()));
    vstd::set_lib::lemma_len_subset(voters_for(row, option_index), row.dom());
    if receipt == (Receipt::Public { option_index }) {
        assert(voters_for(after, option_index) =~= voters_for(row, option_index).insert(voter));
    } else {
        assert(voters_for(after, option_index) =~= voters_for(row, option_index));
    }
}

/// A row without entries has no voters for any option.
pub proof fn lemma_no_receipts_for_option(option_index: u32)
    ensures
        voters_for(Map::<Address, Receipt>::empty(), option_index).len() == 0,
{
    assert(voters_for(Map::<Address, Receipt>::empty(), option_index) =~= Set::<Address>::empty());
}

/// A row without entries has no voters of either kind.
pub proof fn lemma_no_receipts_no_voters()
    ensures
        public_voters(Map::<Address, Receipt>::empty()).len() == 0,
        private_voters(Map::<Address, Receipt>::empty()).len() == 0,
{
    assert(public_voters(Map::<Address, Receipt>::empty()) =~= Set::<Address>::empty());
    assert(private_voters(Map::<Address, Receipt>::empty()) =~= Set::<Address>::empty());
}

} // verus!
