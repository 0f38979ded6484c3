//! A map kept as a vector of entries in strictly increasing key order.
//!
//! The representation is canonical: two maps with the same contents hold the
//! same entries in the same positions, whatever the order of the insertions
//! that built them.

use vstd::prelude::*;

verus! {

/// How one key stands to another in the key order.
#[derive(Clone, Copy, Debug, PartialEq, Eq)]
pub enum KeyOrder {
    Before,
    Same,
    After,
}

/// A key type with a strict total order that executable code can decide.
pub trait MapKey: Sized + Copy {
    /// The strict order: `self` comes before `other`.
    spec fn key_lt(self, other: Self) -> bool;

    /// `key_lt` is irreflexive, transitive, and relates any two distinct keys.
    proof fn lemma_key_order(a: Self, b: Self, c: Self)
        ensures
            !a.key_lt(a),
            a.key_lt(b) && b.key_lt(c) ==> a.key_lt(c),
            a == b || a.key_lt(b) || b.key_lt(a),
    ;

    /// Decides where `self` stands relative to `other`.
    fn order(&self, other: &Self) -> (o: KeyOrder)
        ensures
            o is Before <==> self.key_lt(*other),
            o is Same <==> *self == *other,
            o is After <==> other.key_lt(*self),
    ;
}

impl MapKey for u64 {
    open spec fn key_lt(self, other: Self) -> bool {
        self < other
    }

    proof fn lemma_key_order(a: Self, b: Self, c: Self) {
    }

    fn order(&self, other: &Self) -> (o: KeyOrder) {
        if *self < *other {
            KeyOrder::Before
        } else if *self == *other {
            KeyOrder::Same
        } else {
            KeyOrder::After
        }
    }
}

impl MapKey for u32 {
    open spec fn key_lt(self, other: Self) -> bool {
        self < other
    }

    proof fn lemma_key_order(a: Self, b: Self, c: Self) {
    }

    fn order(&self, other: &Self) -> (o: KeyOrder) {
        if *self < *other {
            KeyOrder::Before
        } else if *self == *other {
            KeyOrder::Same
        } else {
            KeyOrder::After
        }
    }
}

/// A key that is a number and is ordered as numbers are.
pub trait NumberKey: MapKey {
    /// The number that the key is.
    spec fn number(self) -> nat;

    /// The key order is the order of the numbers.
    proof fn lemma_number_order(a: Self, b: Self)
        ensures
            a.key_lt(b) <==> a.number() < b.number(),
    ;
}

impl NumberKey for u64 {
    open spec fn number(self) -> nat {
        self as nat
    }

    proof fn lemma_number_order(a: Self, b: Self) {
    }
}

impl NumberKey for u32 {
    open spec fn number(self) -> nat {
        self as nat
    }

    proof fn lemma_number_order(a: Self, b: Self) {
    }
}

/// Every key of `keys` stands before every later one.
pub open spec fn strictly_increasing<K: MapKey>(keys: Seq<K>) -> bool {
    forall|i: int, j: int| 0 <= i < j < keys.len() ==> (#[trigger] keys[i]).key_lt(#[trigger] keys[j])
}

/// The map that a key sequence and a value sequence of one length stand for:
/// each key is sent to the value at the key's position.
pub open spec fn map_of<K, V>(keys: Seq<K>, values: Seq<V>) -> Map<K, V> {
    Map::new(|k: K| keys.contains(k), |k: K| values[keys.index_of(k)])
}

/// `key` belongs at position `pos`: the keys before it are smaller, the keys
/// from it on are larger.
pub open spec fn is_gap<K: MapKey>(keys: Seq<K>, key: K, pos: int) -> bool {
    &&& 0 <= pos <= keys.len()
    &&& forall|i: int| 0 <= i < pos ==> (#[trigger] keys[i]).key_lt(key)
    &&& forall|i: int| pos <= i < keys.len() ==> key.key_lt(#[trigger] keys[i])
}

/// In an increasing sequence a key occurs at one position only.
pub proof fn lemma_positions_unique<K: MapKey>(keys: Seq<K>, i: int, j: int)
    requires
        strictly_increasing(keys),
        0 <= i < keys.len(),
        0 <= j < keys.len(),
        keys[i] == keys[j],
    ensures
        i == j,
{
    K::lemma_key_order(keys[i], keys[i], keys[i]);
}

/// The entry at position `i` is what the map holds for the key at `i`.
pub proof fn lemma_map_of_entry<K: MapKey, V>(keys: Seq<K>, values: Seq<V>, i: int)
    requires
        strictly_increasing(keys),
        keys.len() == values.len(),
        0 <= i < keys.len(),
    ensures
        map_of(keys, values).contains_key(keys[i]),
        map_of(keys, values)[keys[i]] == values[i],
{
    assert(keys.contains(keys[i]));
    lemma_positions_unique(keys, i, keys.index_of(keys[i]));
}

/// A key that belongs in a gap is not in the map.
pub proof fn lemma_gap_is_absent<K: MapKey, V>(keys: Seq<K>, values: Seq<V>, key: K, pos: int)
    requires
        is_gap(keys, key, pos),
    ensures
        !map_of(keys, values).contains_key(key),
{
    if keys.contains(key) {
        let i = keys.index_of(key);
        K::lemma_key_order(key, key, key);
    }
}

/// Putting a key and its value into the key's gap keeps the order and adds
/// the pair to the map.
pub proof fn lemma_insert_in_gap<K: MapKey, V>(
    keys: Seq<K>,
    values: Seq<V>,
    key: K,
    value: V,
    pos: int,
)
    requires
        strictly_increasing(keys),
        keys.len() == values.len(),
        is_gap(keys, key, pos),
    ensures
        strictly_increasing(keys.insert(pos, key)),
        map_of(keys.insert(pos, key), values.insert(pos, value)) == map_of(keys, values).insert(
            key,
            value,
        ),
{
    let keys2 = keys.insert(pos, key);
    let values2 = values.insert(pos, value);
    assert(strictly_increasing(keys2)) by {
        assert forall|i: int, j: int| 0 <= i < j < keys2.len() implies (#[trigger] keys2[i]).key_lt(
            #[trigger] keys2[j],
        ) by {
            let a = if i < pos { i } else { i - 1 };
            let b = if j < pos { j } else { j - 1 };
            if i != pos && j != pos {
                assert(keys2[i] == keys[a]);
                assert(keys2[j] == keys[b]);
            } else if i == pos {
                assert(keys2[j] == keys[b]);
            } else {
                assert(keys2[i] == keys[a]);
            }
        }
    }
    let before = map_of(keys, values);
    let after = map_of(keys2, values2);
    assert forall|k: K| after.contains_key(k) <==> before.insert(key, value).contains_key(k) by {
        if keys2.contains(k) {
            let i = keys2.index_of(k);
            if i != pos {
                let a = if i < pos { i } else { i - 1 };
                assert(keys[a] == k);
            }
        }
        if k == key {
            assert(keys2[pos] == k);
        } else if keys.contains(k) {
            let a = keys.index_of(k);
            let i = if a < pos { a } else { a + 1 };
            assert(keys2[i] == k);
        }
    }
    assert forall|k: K| after.contains_key(k) implies after[k] == before.insert(key, value)[k] by {
        let i = keys2.index_of(k);
        lemma_map_of_entry(keys2, values2, i);
        if i == pos {
        } else {
            let a = if i < pos { i } else { i - 1 };
            assert(keys[a] == k);
            assert(values2[i] == values[a]);
            lemma_map_of_entry(keys, values, a);
            if k == key {
                lemma_positions_unique(keys2, i, pos);
            }
        }
    }
    assert(after =~= before.insert(key, value));
}

/// Writing a new value at a key's position overwrites the key in the map.
pub proof fn lemma_overwrite<K: MapKey, V>(keys: Seq<K>, values: Seq<V>, value: V, pos: int)
    requires
        strictly_increasing(keys),
        keys.len() == values.len(),
        0 <= pos < keys.len(),
    ensures
        map_of(keys, values.update(pos, value)) == map_of(keys, values).insert(keys[pos], value),
{
    let values2 = values.update(pos, value);
    let before = map_of(keys, values);
    let after = map_of(keys, values2);
    assert(keys.contains(keys[pos]));
    assert forall|k: K| after.contains_key(k) implies after[k] == before.insert(keys[pos], value)[k] by {
        let i = keys.index_of(k);
        lemma_map_of_entry(keys, values2, i);
        lemma_map_of_entry(keys, values, i);
        if k == keys[pos] {
            lemma_positions_unique(keys, i, pos);
        }
    }
    assert(after =~= before.insert(keys[pos], value));
}

/// Taking the entry at a position out keeps the order and removes its key
/// from the map.
pub proof fn lemma_remove_at<K: MapKey, V>(keys: Seq<K>, values: Seq<V>, pos: int)
    requires
        strictly_increasing(keys),
        keys.len() == values.len(),
        0 <= pos < keys.len(),
    ensures
        strictly_increasing(keys.remove(pos)),
        map_of(keys.remove(pos), values.remove(pos)) == map_of(keys, values).remove(keys[pos]),
{
    let keys2 = keys.remove(pos);
    let values2 = values.remove(pos);
    assert(strictly_increasing(keys2)) by {
        assert forall|i: int, j: int| 0 <= i < j < keys2.len() implies (#[trigger] keys2[i]).key_lt(
            #[trigger] keys2[j],
        ) by {
            let a = if i < pos { i } else { i + 1 };
            let b = if j < pos { j } else { j + 1 };
            assert(keys2[i] == keys[a]);
            assert(keys2[j] == keys[b]);
        }
    }
    let before = map_of(keys, values);
    let after = map_of(keys2, values2);
    assert forall|k: K| after.contains_key(k) <==> before.remove(keys[pos]).contains_key(k) by {
        if keys2.contains(k) {
            let i = keys2.index_of(k);
            let a = if i < pos { i } else { i + 1 };
            assert(keys[a] == k);
            if k == keys[pos] {
                lemma_positions_unique(keys, a, pos);
            }
        }
        if k != keys[pos] && keys.contains(k) {
            let a = keys.index_of(k);
            let i = if a < pos { a } else { a - 1 };
            assert(keys2[i] == k);
        }
    }
    assert forall|k: K| after.contains_key(k) implies after[k] == before.remove(keys[pos])[k] by {
        let i = keys2.index_of(k);
        let a = if i < pos { i } else { i + 1 };
        assert(keys[a] == k);
        assert(values2[i] == values[a]);
        lemma_map_of_entry(keys2, values2, i);
        lemma_map_of_entry(keys, values, a);
    }
    assert(after =~= before.remove(keys[pos]));
}

/// The map of an increasing key sequence has one key for each position.
pub proof fn lemma_map_of_size<K: MapKey, V>(keys: Seq<K>, values: Seq<V>)
    requires
        strictly_increasing(keys),
    ensures
        map_of(keys, values).dom().finite(),
        map_of(keys, values).dom().len() == keys.len(),
{
    assert(map_of(keys, values).dom() =~= keys.to_set());
    vstd::seq_lib::seq_to_set_is_finite(keys);
    assert(keys.no_duplicates()) by {
        assert forall|i: int, j: int| 0 <= i < keys.len() && 0 <= j < keys.len() && i != j implies keys[i]
            != keys[j] by {
            if keys[i] == keys[j] {
                lemma_positions_unique(keys, i, j);
            }
        }
    }
    keys.unique_seq_to_set();
}

/// Two increasing sequences that hold the same keys are the same sequence.
pub proof fn lemma_same_keys_same_order<K: MapKey>(a: Seq<K>, b: Seq<K>)
    requires
        strictly_increasing(a),
        strictly_increasing(b),
        forall|k: K| a.contains(k) <==> b.contains(k),
    ensures
        a == b,
    decreases a.len(),
{
    if a.len() == 0 {
        if b.len() > 0 {
            assert(b.contains(b[0]));
        }
        assert(a =~= b);
    } else {
        assert(a.contains(a[0]));
        assert(b.contains(a[0]));
        let j = b.index_of(a[0]);
        assert(b.contains(b[0]));
        let i = a.index_of(b[0]);
        assert(a[0] == b[0]) by {
            if i > 0 && j > 0 {
                assert(a[0].key_lt(a[i]));
                assert(b[0].key_lt(b[j]));
                K::lemma_key_order(a[0], b[0], a[0]);
            }
        }
        let a_rest = a.subrange(1, a.len() as int);
        let b_rest = b.subrange(1, b.len() as int);
        assert(strictly_increasing(a_rest)) by {
            assert forall|x: int, y: int| 0 <= x < y < a_rest.len() implies (#[trigger] a_rest[x]).key_lt(
                #[trigger] a_rest[y],
            ) by {
                assert(a_rest[x] == a[x + 1]);
                assert(a_rest[y] == a[y + 1]);
            }
        }
        assert(strictly_increasing(b_rest)) by {
            assert forall|x: int, y: int| 0 <= x < y < b_rest.len() implies (#[trigger] b_rest[x]).key_lt(
                #[trigger] b_rest[y],
            ) by {
                assert(b_rest[x] == b[x + 1]);
                assert(b_rest[y] == b[y + 1]);
            }
        }
        assert forall|k: K| a_rest.contains(k) <==> b_rest.contains(k) by {
            if a_rest.contains(k) {
                let x = a_rest.index_of(k);
                assert(a[x + 1] == k);
                assert(a.contains(k));
                let y = b.index_of(k);
                if y == 0 {
                    lemma_positions_unique(a, x + 1, 0);
                }
                assert(b_rest[y - 1] == k);
            }
            if b_rest.contains(k) {
                let y = b_rest.index_of(k);
                assert(b[y + 1] == k);
                assert(b.contains(k));
                let x = a.index_of(k);
                if x == 0 {
                    lemma_positions_unique(b, y + 1, 0);
                }
                assert(a_rest[x - 1] == k);
            }
        }
        lemma_same_keys_same_order(a_rest, b_rest);
        assert(a =~= seq![a[0]] + a_rest);
        assert(b =~= seq![b[0]] + b_rest);
    }
}

/// In an increasing sequence of numbers, the number at a position is at
/// least the position.
pub proof fn lemma_keys_at_least_position<K: NumberKey>(keys: Seq<K>, i: int)
    requires
        strictly_increasing(keys),
        0 <= i < keys.len(),
    ensures
        keys[i].number() >= i,
    decreases i,
{
    if i > 0 {
        lemma_keys_at_least_position(keys, i - 1);
        assert(keys[i - 1].key_lt(keys[i]));
        K::lemma_number_order(keys[i - 1], keys[i]);
    }
}

/// In an increasing sequence of numbers that all lie below the length of the
/// sequence, the number at a position is at most the position. With the
/// lemma before, the sequence counts from zero on.
pub proof fn lemma_keys_at_most_position<K: NumberKey>(keys: Seq<K>, i: int)
    requires
        strictly_increasing(keys),
        forall|j: int| 0 <= j < keys.len() ==> (#[trigger] keys[j]).number() < keys.len(),
        0 <= i < keys.len(),
    ensures
        keys[i].number() <= i,
    decreases keys.len() - i,
{
    if i + 1 < keys.len() {
        lemma_keys_at_most_position(keys, i + 1);
        assert(keys[i].key_lt(keys[i + 1]));
        K::lemma_number_order(keys[i], keys[i + 1]);
    }
}

/// The map of the first `k` entries.
pub open spec fn prefix_map<K, V>(keys: Seq<K>, values: Seq<V>, k: int) -> Map<K, V> {
    map_of(keys.subrange(0, k), values.subrange(0, k))
}

/// The map of the first `k + 1` entries is the map of the first `k` with the
/// entry at `k` put in, whose key the first `k` entries do not hold.
pub proof fn lemma_prefix_step<K: MapKey, V>(keys: Seq<K>, values: Seq<V>, k: int)
    requires
        strictly_increasing(keys),
        keys.len() == values.len(),
        0 <= k < keys.len(),
    ensures
        prefix_map(keys, values, k).dom().finite(),
        prefix_map(keys, values, k).dom().len() == k,
        !prefix_map(keys, values, k).contains_key(keys[k]),
        prefix_map(keys, values, k + 1) == prefix_map(keys, values, k).insert(keys[k], values[k]),
{
    let head_keys = keys.subrange(0, k);
    let head_values = values.subrange(0, k);
    assert(strictly_increasing(head_keys)) by {
        assert forall|i: int, j: int| 0 <= i < j < head_keys.len() implies (
        #[trigger] head_keys[i]).key_lt(#[trigger] head_keys[j]) by {
            assert(head_keys[i] == keys[i]);
            assert(head_keys[j] == keys[j]);
        }
    }
    assert(is_gap(head_keys, keys[k], k)) by {
        assert forall|i: int| 0 <= i < k implies (#[trigger] head_keys[i]).key_lt(keys[k]) by {
            assert(head_keys[i] == keys[i]);
        }
    }
    lemma_map_of_size(head_keys, head_values);
    lemma_gap_is_absent(head_keys, head_values, keys[k], k);
    lemma_insert_in_gap(head_keys, head_values, keys[k], values[k], k);
    assert(head_keys.insert(k, keys[k]) =~= keys.subrange(0, k + 1));
    assert(head_values.insert(k, values[k]) =~= values.subrange(0, k + 1));
}

/// The map of all entries is the map of the first `len` entries, and the map
/// of no entries is empty.
pub proof fn lemma_prefix_ends<K: MapKey, V>(keys: Seq<K>, values: Seq<V>)
    requires
        keys.len() == values.len(),
    ensures
        prefix_map(keys, values, 0) == Map::<K, V>::empty(),
        prefix_map(keys, values, keys.len() as int) == map_of(keys, values),
{
    assert(keys.subrange(0, keys.len() as int) =~= keys);
    assert(values.subrange(0, keys.len() as int) =~= values);
    assert(prefix_map(keys, values, 0) =~= Map::<K, V>::empty());
}

/// A map from `K` to `V`, stored as parallel vectors in increasing key order.
#[derive(Debug, PartialEq, Eq)]
pub struct SortedVecMap<K: MapKey, V> {
    keys: Vec<K>,
    values: Vec<V>,
}

impl<K: MapKey, V> View for SortedVecMap<K, V> {
    type V = Map<K, V>;

    closed spec fn view(&self) -> Map<K, V> {
        map_of(self.keys@, self.values@)
    }
}

impl<K: MapKey, V> SortedVecMap<K, V> {
    #[verifier::type_invariant]
    closed spec fn inv(self) -> bool {
        &&& self.keys@.len() == self.values@.len()
        &&& strictly_increasing(self.keys@)
    }

    /// The keys in increasing order.
    pub closed spec fn ordered_keys(self) -> Seq<K> {
        self.keys@
    }

    /// The values in the order of their keys.
    pub closed spec fn ordered_values(self) -> Seq<V> {
        self.values@
    }

    /// The empty map.
    pub fn new() -> (m: Self)
        ensures
            m@ == Map::<K, V>::empty(),
            m.ordered_keys() == Seq::<K>::empty(),
            m.ordered_values() == Seq::<V>::empty(),
    {
        let m = SortedVecMap { keys: Vec::new(), values: Vec::new() };
        assert(m@ =~= Map::<K, V>::empty());
        m
    }

    /// The number of entries.
    pub fn len(&self) -> (n: usize)
        ensures
            self@.dom().finite(),
            n == self@.dom().len(),
            n == self.ordered_keys().len(),
            n == self.ordered_values().len(),
            self.well_ordered(),
    {
        proof {
            use_type_invariant(self);
            lemma_map_of_size(self.keys@, self.values@);
        }
        self.keys.len()
    }

    /// Binary search for `key`: whether it is present, and the position at
    /// which it stands or belongs.
    fn locate(&self, key: &K) -> (r: (bool, usize))
        ensures
            r.1 <= self.keys@.len(),
            r.0 ==> r.1 < self.keys@.len() && self.keys@[r.1 as int] == *key,
            !r.0 ==> is_gap(self.keys@, *key, r.1 as int),
    {
        proof {
            use_type_invariant(self);
        }
        let mut lo: usize = 0;
        let mut hi: usize = self.keys.len();
        while lo < hi
            invariant
                strictly_increasing(self.keys@),
                lo <= hi <= self.keys@.len(),
                forall|i: int| 0 <= i < lo ==> (#[trigger] self.keys@[i]).key_lt(*key),
                forall|i: int| hi <= i < self.keys@.len() ==> key.key_lt(#[trigger] self.keys@[i]),
            decreases hi - lo,
        {
            let mid: usize = lo + (hi - lo) / 2;
            match self.keys[mid].order(key) {
                KeyOrder::Same => {
                    return (true, mid);
                },
                KeyOrder::Before => {
                    assert forall|i: int| 0 <= i < mid + 1 implies (#[trigger] self.keys@[i]).key_lt(
                        *key,
                    ) by {
                        if i < mid {
                            K::lemma_key_order(self.keys@[i], self.keys@[mid as int], *key);
                        }
                    }
                    lo = mid + 1;
                },
                KeyOrder::After => {
                    assert forall|i: int| mid <= i < self.keys@.len() implies key.key_lt(
                        #[trigger] self.keys@[i],
                    ) by {
                        if mid < i {
                            K::lemma_key_order(*key, self.keys@[mid as int], self.keys@[i]);
                        }
                    }
                    hi = mid;
                },
            }
        }
        (false, lo)
    }

    /// Whether the map holds an entry for `key`.
    pub fn contains_key(&self, key: &K) -> (found: bool)
        ensures
            found == self@.contains_key(*key),
    {
        proof {
            use_type_invariant(self);
        }
        let (found, pos) = self.locate(key);
        proof {
            if found {
                lemma_map_of_entry(self.keys@, self.values@, pos as int);
            } else {
                lemma_gap_is_absent(self.keys@, self.values@, *key, pos as int);
            }
        }
        found
    }

    /// The value stored for `key`, if there is one.
    pub fn get(&self, key: &K) -> (value: Option<&V>)
        ensures
            value == (if self@.contains_key(*key) {
                Some(&self@[*key])
            } else {
                None
            }),
    {
        proof {
            use_type_invariant(self);
        }
        let (found, pos) = self.locate(key);
        if found {
            proof {
                lemma_map_of_entry(self.keys@, self.values@, pos as int);
            }
            Some(&self.values[pos])
        } else {
            proof {
                lemma_gap_is_absent(self.keys@, self.values@, *key, pos as int);
            }
            None
        }
    }

    /// Stores `value` for `key` and hands back the value it replaces, if any.
    pub fn insert(&mut self, key: K, value: V) -> (previous: Option<V>)
        ensures
            final(self)@ == old(self)@.insert(key, value),
            previous == (if old(self)@.contains_key(key) {
                Some(old(self)@[key])
            } else {
                None
            }),
    {
        proof {
            use_type_invariant(&*self);
        }
        let (found, pos) = self.locate(&key);
        let mut taken = SortedVecMap::new();
        core::mem::swap(self, &mut taken);
        let SortedVecMap { keys, values } = taken;
        let mut keys = keys;
        let mut values = values;
        let previous = if found {
            proof {
                lemma_map_of_entry(keys@, values@, pos as int);
                lemma_overwrite(keys@, values@, value, pos as int);
            }
            values.push(value);
            Some(values.swap_remove(pos))
        } else {
            proof {
                lemma_gap_is_absent(keys@, values@, key, pos as int);
                lemma_insert_in_gap(keys@, values@, key, value, pos as int);
            }
            keys.insert(pos, key);
            values.insert(pos, value);
            None
        };
        assert(values@ =~= (if found {
            old(self).values@.update(pos as int, value)
        } else {
            old(self).values@.insert(pos as int, value)
        }));
        *self = SortedVecMap { keys, values };
        previous
    }

    /// Takes the entry for `key` out and hands back its value, if there was one.
    pub fn remove(&mut self, key: &K) -> (removed: Option<V>)
        ensures
            final(self)@ == old(self)@.remove(*key),
            removed == (if old(self)@.contains_key(*key) {
                Some(old(self)@[*key])
            } else {
                None
            }),
    {
        proof {
            use_type_invariant(&*self);
        }
        let (found, pos) = self.locate(key);
        if found {
            let mut taken = SortedVecMap::new();
            core::mem::swap(self, &mut taken);
            let SortedVecMap { keys, values } = taken;
            let mut keys = keys;
            let mut values = values;
            proof {
                lemma_map_of_entry(keys@, values@, pos as int);
                lemma_remove_at(keys@, values@, pos as int);
            }
            keys.remove(pos);
            let value = values.remove(pos);
            *self = SortedVecMap { keys, values };
            Some(value)
        } else {
            proof {
                lemma_gap_is_absent(self.keys@, self.values@, *key, pos as int);
                assert(self@.remove(*key) =~= self@);
            }
            None
        }
    }

    /// The key at a position of the key order.
    pub fn key_at(&self, i: usize) -> (key: K)
        requires
            i < self.ordered_keys().len(),
        ensures
            key == self.ordered_keys()[i as int],
    {
        self.keys[i]
    }

    /// The value at a position of the key order.
    pub fn value_at(&self, i: usize) -> (value: &V)
        requires
            i < self.ordered_values().len(),
        ensures
            *value == self.ordered_values()[i as int],
    {
        &self.values[i]
    }

    /// How the ordered keys and values relate to the map: the keys increase,
    /// there is one value for each, and the map sends each key to its value.
    pub proof fn lemma_ordered_entries(self)
        requires
            self.well_ordered(),
        ensures
            strictly_increasing(self.ordered_keys()),
            self.ordered_keys().len() == self.ordered_values().len(),
            self@ == map_of(self.ordered_keys(), self.ordered_values()),
    {
    }

    /// The representation is canonical: two maps that hold the same entries
    /// hold them in the same positions, however each was built.
    pub proof fn lemma_canonical(self, other: Self)
        requires
            self.well_ordered(),
            other.well_ordered(),
            self@ == other@,
        ensures
            self.ordered_keys() == other.ordered_keys(),
            self.ordered_values() == other.ordered_values(),
    {
        assert forall|k: K| self.keys@.contains(k) <==> other.keys@.contains(k) by {
            assert(self@.contains_key(k) <==> self.keys@.contains(k));
            assert(other@.contains_key(k) <==> other.keys@.contains(k));
        }
        lemma_same_keys_same_order(self.keys@, other.keys@);
        assert forall|i: int| 0 <= i < self.values@.len() implies self.values@[i]
            == other.values@[i] by {
            lemma_map_of_entry(self.keys@, self.values@, i);
            lemma_map_of_entry(other.keys@, other.values@, i);
        }
        assert(self.values@ =~= other.values@);
    }

    /// The representation invariant, which every map built by this module has.
    pub closed spec fn well_ordered(self) -> bool {
        self.inv()
    }
}

impl<K: MapKey, V: Copy> Clone for SortedVecMap<K, V> {
    /// A copy with the same entries.
    fn clone(&self) -> (copy: Self)
        ensures
            copy@ == self@,
            copy.ordered_keys() == self.ordered_keys(),
            copy.ordered_values() == self.ordered_values(),
    {
        proof {
            use_type_invariant(self);
        }
        let mut keys: Vec<K> = Vec::new();
        let mut values: Vec<V> = Vec::new();
        let mut i: usize = 0;
        while i < self.keys.len()
            invariant
                i <= self.keys@.len(),
                self.keys@.len() == self.values@.len(),
                keys@ == self.keys@.subrange(0, i as int),
                values@ == self.values@.subrange(0, i as int),
            decreases self.keys@.len() - i,
        {
            keys.push(self.keys[i]);
            values.push(self.values[i]);
            i += 1;
            assert(keys@ =~= self.keys@.subrange(0, i as int));
            assert(values@ =~= self.values@.subrange(0, i as int));
        }
        assert(keys@ =~= self.keys@);
        assert(values@ =~= self.values@);
        SortedVecMap { keys, values }
    }
}

} // verus!
