//! Ledger identities and their canonical order.

use vstd::prelude::*;
use crate::sorted_vec_map::KeyOrder;
use crate::sorted_vec_map::MapKey;

verus! {

/// The number of identifier bytes in an address.
pub const IDENTIFIER_LEN: usize = 20;

/// The kind of party that an address names.
#[derive(Clone, Copy, Debug, PartialEq, Eq)]
pub enum AddressType {
    Account,
    SystemContract,
    PublicContract,
    ZkContract,
    GovContract,
}

impl AddressType {
    /// The position of the kind in the order of kinds.
    pub open spec fn rank(self) -> int {
        match self {
            AddressType::Account => 0,
            AddressType::SystemContract => 1,
            AddressType::PublicContract => 2,
            AddressType::ZkContract => 3,
            AddressType::GovContract => 4,
        }
    }

    /// The rank as a byte.
    pub fn rank_byte(&self) -> (r: u8)
        ensures
            r == self.rank(),
    {
        match self {
            AddressType::Account => 0,
            AddressType::SystemContract => 1,
            AddressType::PublicContract => 2,
            AddressType::ZkContract => 3,
            AddressType::GovContract => 4,
        }
    }
}

/// An authenticated identity: the kind of party and its identifier.
#[derive(Clone, Copy, Debug, PartialEq, Eq)]
pub struct Address {
    pub address_type: AddressType,
    pub identifier: [u8; 20],
}

/// Lexicographic order on the bytes from position `i` on: the first position
/// at which the two differ decides.
pub open spec fn bytes_lt_from(a: Seq<u8>, b: Seq<u8>, i: int) -> bool
    decreases a.len() - i,
{
    if i < 0 || i >= a.len() || i >= b.len() {
        false
    } else if a[i] != b[i] {
        a[i] < b[i]
    } else {
        bytes_lt_from(a, b, i + 1)
    }
}

/// No byte string comes before itself.
pub proof fn lemma_bytes_irreflexive(a: Seq<u8>, i: int)
    ensures
        !bytes_lt_from(a, a, i),
    decreases a.len() - i,
{
    if 0 <= i < a.len() {
        lemma_bytes_irreflexive(a, i + 1);
    }
}

/// The byte order is transitive.
pub proof fn lemma_bytes_transitive(a: Seq<u8>, b: Seq<u8>, c: Seq<u8>, i: int)
    requires
        bytes_lt_from(a, b, i),
        bytes_lt_from(b, c, i),
    ensures
        bytes_lt_from(a, c, i),
    decreases a.len() - i,
{
    if a[i] == b[i] && b[i] == c[i] {
        lemma_bytes_transitive(a, b, c, i + 1);
    }
}

/// Two byte strings of one length, neither before the other, agree from `i` on.
pub proof fn lemma_bytes_connected(a: Seq<u8>, b: Seq<u8>, i: int)
    requires
        a.len() == b.len(),
        0 <= i,
        !bytes_lt_from(a, b, i),
        !bytes_lt_from(b, a, i),
    ensures
        forall|j: int| i <= j < a.len() ==> a[j] == b[j],
    decreases a.len() - i,
{
    if i < a.len() {
        lemma_bytes_connected(a, b, i + 1);
    }
}

impl Address {
    /// The order of addresses: by kind first, then by identifier bytes.
    pub open spec fn lt(self, other: Address) -> bool {
        ||| self.address_type.rank() < other.address_type.rank()
        ||| (self.address_type == other.address_type && bytes_lt_from(
            self.identifier@,
            other.identifier@,
            0,
        ))
    }
}

impl Address {
    /// Whether two addresses name the same party.
    pub fn same(&self, other: &Address) -> (equal: bool)
        ensures
            equal == (*self == *other),
    {
        match self.order(other) {
            KeyOrder::Same => true,
            _ => false,
        }
    }
}

impl MapKey for Address {
    open spec fn key_lt(self, other: Self) -> bool {
        self.lt(other)
    }

    proof fn lemma_key_order(a: Self, b: Self, c: Self) {
        lemma_bytes_irreflexive(a.identifier@, 0);
        if a.lt(b) && b.lt(c) {
            if a.address_type == b.address_type && b.address_type == c.address_type {
                lemma_bytes_transitive(a.identifier@, b.identifier@, c.identifier@, 0);
            }
        }
        if !a.lt(b) && !b.lt(a) {
            assert(a.address_type == b.address_type);
            lemma_bytes_connected(a.identifier@, b.identifier@, 0);
            assert(a.identifier@ =~= b.identifier@);
            assert(a.identifier == b.identifier);
        }
    }

    fn order(&self, other: &Self) -> (o: KeyOrder) {
        let mine = self.address_type.rank_byte();
        let theirs = other.address_type.rank_byte();
        if mine < theirs {
            return KeyOrder::Before;
        }
        if mine > theirs {
            return KeyOrder::After;
        }
        let mut i: usize = 0;
        while i < IDENTIFIER_LEN
            invariant
                i <= IDENTIFIER_LEN,
                self.address_type == other.address_type,
                bytes_lt_from(self.identifier@, other.identifier@, 0) == bytes_lt_from(
                    self.identifier@,
                    other.identifier@,
                    i as int,
                ),
                bytes_lt_from(other.identifier@, self.identifier@, 0) == bytes_lt_from(
                    other.identifier@,
                    self.identifier@,
                    i as int,
                ),
            decreases IDENTIFIER_LEN - i,
        {
            let x = self.identifier[i];
            let y = other.identifier[i];
            assert(x == self.identifier@[i as int] && y == other.identifier@[i as int]);
            if x < y {
                return KeyOrder::Before;
            }
            if x > y {
                return KeyOrder::After;
            }
            i += 1;
        }
        proof {
            lemma_bytes_connected(self.identifier@, other.identifier@, 0);
            assert(self.identifier@ =~= other.identifier@);
            assert(self.identifier == other.identifier);
        }
        KeyOrder::Same
    }
}

} // verus!
