//! Tests, on stored data, what the validity of a state asks of a poll, its
//! ledger row and its private tally.

use vstd::prelude::*;
use crate::address::Address;
use crate::model::covers_options;
use crate::model::poll_consistent;
use crate::model::private_voters;
use crate::model::public_voters;
use crate::model::tally_total;
use crate::model::voters_for;
use crate::model::zero_tally;
use crate::model::MAX_OPTIONS;
use crate::model::Receipt;
use crate::poll::Poll;
use crate::sorted_vec_map::lemma_keys_at_least_position;
use crate::sorted_vec_map::lemma_keys_at_most_position;
use crate::sorted_vec_map::lemma_map_of_entry;
use crate::sorted_vec_map::lemma_prefix_ends;
use crate::sorted_vec_map::lemma_prefix_step;
use crate::sorted_vec_map::map_of;
use crate::sorted_vec_map::prefix_map;
use crate::sorted_vec_map::strictly_increasing;
use crate::sorted_vec_map::SortedVecMap;
use crate::tally::lemma_no_receipts_for_option;
use crate::tally::lemma_no_receipts_no_voters;
use crate::tally::lemma_record_for_option;
use crate::tally::lemma_record_private;
use crate::tally::lemma_record_public;
use crate::tally::lemma_zero_tally_total;

verus! {

/// The option indices below `n`.
pub open spec fn indices_below(n: nat) -> Set<u32> {
    Set::new(|i: u32| (i as nat) < n)
}

/// There are `n` option indices below `n`.
pub proof fn lemma_indices_below_len(n: nat)
    requires
        n <= u32::MAX + 1,
    ensures
        indices_below(n).finite(),
        indices_below(n).len() == n,
    decreases n,
{
    if n == 0 {
        assert(indices_below(n) =~= Set::<u32>::empty());
    } else {
        lemma_indices_below_len((n - 1) as nat);
        assert(indices_below(n) =~= indices_below((n - 1) as nat).insert((n - 1) as u32));
    }
}

/// The total of a tally of `n` options, if the tally has exactly one count
/// for each option index below `n`, and nothing otherwise.
pub fn checked_total(tally: &SortedVecMap<u32, u64>, n: usize) -> (total: Option<u128>)
    requires
        n <= MAX_OPTIONS,
    ensures
        total is Some <==> covers_options(tally@, n as nat),
        total matches Some(t) ==> t == tally_total(tally@, n as nat),
{
    let entries = tally.len();
    let ghost keys = tally.ordered_keys();
    let ghost values = tally.ordered_values();
    proof {
        tally.lemma_ordered_entries();
        if covers_options(tally@, n as nat) {
            lemma_indices_below_len(n as nat);
            assert(tally@.dom() =~= indices_below(n as nat));
        }
    }
    if entries != n {
        return None;
    }
    let mut sum: u128 = 0;
    let mut i: usize = 0;
    while i < n
        invariant
            i <= n <= MAX_OPTIONS,
            n == keys.len(),
            n == values.len(),
            keys == tally.ordered_keys(),
            values == tally.ordered_values(),
            strictly_increasing(keys),
            tally@ == map_of(keys, values),
            forall|j: int| 0 <= j < i ==> keys[j] == j,
            sum == tally_total(tally@, i as nat),
            sum <= i * u64::MAX,
        decreases n - i,
    {
        let key = tally.key_at(i);
        proof {
            lemma_map_of_entry(keys, values, i as int);
        }
        if key != i as u32 {
            proof {
                if covers_options(tally@, n as nat) {
                    assert forall|j: int| 0 <= j < keys.len() implies keys[j] < keys.len() by {
                        lemma_map_of_entry(keys, values, j);
                    }
                    lemma_keys_at_least_position(keys, i as int);
                    lemma_keys_at_most_position(keys, i as int);
                }
            }
            return None;
        }
        let count = *tally.value_at(i);
        assert(tally@[i as u32] == count);
        assert((i + 1) * u64::MAX == i * u64::MAX + u64::MAX) by (nonlinear_arith);
        assert(i * u64::MAX <= 0xffff_ffff * u64::MAX) by (nonlinear_arith)
            requires
                i <= 0xffff_ffff,
        ;
        sum = sum + count as u128;
        i += 1;
    }
    proof {
        assert forall|k: u32| tally@.contains_key(k) <==> (k as nat) < n by {
            if (k as nat) < n {
                lemma_map_of_entry(keys, values, k as int);
            }
            if tally@.contains_key(k) {
                let j = keys.index_of(k);
                assert(keys[j] == j);
            }
        }
    }
    Some(sum)
}

/// Every public receipt of the row names an option below `n`.
pub open spec fn options_exist(row: Map<Address, Receipt>, n: nat) -> bool {
    forall|voter: Address| #[trigger]
        row.contains_key(voter) ==> (row[voter] matches Receipt::Public { option_index } ==> (
        option_index as nat) < n)
}

/// What a count of the receipts of a ledger row finds.
#[derive(Debug, PartialEq, Eq)]
pub struct ReceiptCounts {
    /// For each option index, the number of public receipts for the option.
    pub per_option: Vec<usize>,
    /// The number of public receipts.
    pub public: usize,
    /// The number of private receipts.
    pub private: usize,
}

/// `counts` is the count of the receipts of `row` over `n` options.
pub open spec fn counts_receipts(counts: ReceiptCounts, row: Map<Address, Receipt>, n: nat) -> bool {
    &&& counts.per_option@.len() == n
    &&& forall|i: int|
        0 <= i < n ==> #[trigger] counts.per_option@[i] == voters_for(row, i as u32).len()
    &&& counts.public == public_voters(row).len()
    &&& counts.private == private_voters(row).len()
}

/// Counts the receipts of a ledger row: the public ones for each of the `n`
/// options, the public ones, and the private ones. Nothing comes back where
/// a public receipt names an option that is not below `n`.
pub fn count_receipts(row: &SortedVecMap<Address, Receipt>, n: usize) -> (counts: Option<
    ReceiptCounts,
>)
    requires
        n <= MAX_OPTIONS,
    ensures
        row@.dom().finite(),
        counts is Some <==> options_exist(row@, n as nat),
        counts matches Some(c) ==> counts_receipts(c, row@, n as nat),
{
    let entries = row.len();
    let ghost keys = row.ordered_keys();
    let ghost values = row.ordered_values();
    proof {
        row.lemma_ordered_entries();
        lemma_prefix_ends(keys, values);
        lemma_no_receipts_no_voters();
    }
    let mut per_option: Vec<usize> = Vec::new();
    let mut filled: usize = 0;
    while filled < n
        invariant
            filled <= n <= MAX_OPTIONS,
            per_option@.len() == filled,
            forall|j: int| 0 <= j < filled ==> per_option@[j] == 0,
        decreases n - filled,
    {
        per_option.push(0);
        filled += 1;
    }
    proof {
        assert forall|j: int| 0 <= j < n implies #[trigger] per_option@[j] == voters_for(
            prefix_map(keys, values, 0),
            j as u32,
        ).len() by {
            lemma_no_receipts_for_option(j as u32);
        }
    }
    let mut public: usize = 0;
    let mut private: usize = 0;
    let mut i: usize = 0;
    while i < entries
        invariant
            i <= entries,
            n <= MAX_OPTIONS,
            entries == keys.len(),
            entries == values.len(),
            keys == row.ordered_keys(),
            values == row.ordered_values(),
            strictly_increasing(keys),
            row@ == map_of(keys, values),
            row@.dom().finite(),
            per_option@.len() == n,
            forall|j: int|
                0 <= j < n ==> #[trigger] per_option@[j] == voters_for(
                    prefix_map(keys, values, i as int),
                    j as u32,
                ).len(),
            forall|j: int| 0 <= j < n ==> #[trigger] per_option@[j] <= i,
            public == public_voters(prefix_map(keys, values, i as int)).len(),
            private == private_voters(prefix_map(keys, values, i as int)).len(),
            public + private <= i,
            options_exist(prefix_map(keys, values, i as int), n as nat),
        decreases entries - i,
    {
        let receipt = *row.value_at(i);
        let ghost head = prefix_map(keys, values, i as int);
        let ghost before = per_option@;
        proof {
            lemma_prefix_step(keys, values, i as int);
            lemma_map_of_entry(keys, values, i as int);
        }
        match receipt {
            Receipt::Public { option_index } => {
                if option_index as usize >= n {
                    return None;
                }
                proof {
                    lemma_record_public(head, keys[i as int], option_index);
                }
                let seen = per_option[option_index as usize];
                per_option.set(option_index as usize, seen + 1);
                public += 1;
            },
            Receipt::Private => {
                proof {
                    lemma_record_private(head, keys[i as int]);
                }
                private += 1;
            },
        }
        proof {
            assert forall|j: int| 0 <= j < n implies #[trigger] per_option@[j] == voters_for(
                prefix_map(keys, values, i + 1),
                j as u32,
            ).len() by {
                lemma_record_for_option(head, keys[i as int], receipt, j as u32);
                assert(before[j] == voters_for(head, j as u32).len());
            }
        }
        i += 1;
    }
    Some(ReceiptCounts { per_option, public, private })
}

/// The ledger row that a lookup found, or the empty row.
pub open spec fn row_or_empty(row: Option<&SortedVecMap<Address, Receipt>>) -> Map<Address, Receipt> {
    match row {
        Some(row) => row@,
        None => Map::empty(),
    }
}

/// The private tally that a lookup found, or the tally of zeros.
pub open spec fn tally_or_zero(tally: Option<&SortedVecMap<u32, u64>>, n: nat) -> Map<u32, u64> {
    match tally {
        Some(tally) => tally@,
        None => zero_tally(n),
    }
}

/// Whether a poll, its ledger row and its private tally fit together. A
/// missing row stands for no receipts, a missing tally for counts of zero.
pub fn check_poll(
    poll: &Poll,
    row: Option<&SortedVecMap<Address, Receipt>>,
    private_tally: Option<&SortedVecMap<u32, u64>>,
) -> (consistent: bool)
    ensures
        consistent == poll_consistent(
            poll@,
            row_or_empty(row),
            tally_or_zero(private_tally, poll@.options.len()),
        ),
{
    let n = poll.options.len();
    if poll.title.as_str().is_empty() || poll.description.as_str().is_empty() || n < 2 || n as u64
        > MAX_OPTIONS || poll.created_at >= poll.expires_at {
        return false;
    }
    let public_total = match checked_total(&poll.public_vote_counts, n) {
        Some(total) => total,
        None => {
            return false;
        },
    };
    let private_total = match private_tally {
        Some(tally) => match checked_total(tally, n) {
            Some(total) => total,
            None => {
                return false;
            },
        },
        None => {
            proof {
                lemma_zero_tally_total(n as nat, n as nat);
            }
            0
        },
    };
    let no_receipts = SortedVecMap::new();
    let receipts = match row {
        Some(row) => row,
        None => &no_receipts,
    };
    let counts = match count_receipts(receipts, n) {
        Some(counts) => counts,
        None => {
            return false;
        },
    };
    if public_total != counts.public as u128 || private_total != counts.private as u128 {
        return false;
    }
    let mut i: usize = 0;
    while i < n
        invariant
            i <= n <= MAX_OPTIONS,
            n == poll@.options.len(),
            covers_options(poll@.public_vote_counts, n as nat),
            counts_receipts(counts, row_or_empty(row), n as nat),
            forall|j: u32|
                (j as nat) < i ==> poll@.public_vote_counts[j] == (#[trigger] voters_for(
                    row_or_empty(row),
                    j,
                )).len(),
        decreases n - i,
    {
        let count = match poll.public_vote_counts.get(&(i as u32)) {
            Some(count) => *count,
            None => 0,
        };
        assert(count == poll@.public_vote_counts[i as u32]);
        assert(counts.per_option@[i as int] == voters_for(row_or_empty(row), i as u32).len());
        if count as u128 != counts.per_option[i] as u128 {
            return false;
        }
        i += 1;
    }
    true
}

} // verus!
