//! Sets and maps that keep their keys in ascending order.

use crate::text;
use crate::model::Model;
use crate::text::{Relation, compare};
use vstd::prelude::*;

verus! {

/// A value with a total order.
pub trait Ordered: Model {
    /// How `a` stands to `b`.
    spec fn relation_of(a: Self::V, b: Self::V) -> Relation;

    /// The order is total.
    proof fn order_total(a: Self::V, b: Self::V)
        ensures
            Self::relation_of(a, b) == Relation::Equal <==> a == b,
            Self::relation_of(a, b) == Relation::Less <==> Self::relation_of(b, a)
                == Relation::Greater,
    ;

    /// The order is transitive.
    proof fn order_transitive(a: Self::V, b: Self::V, c: Self::V)
        requires
            Self::relation_of(a, b) == Relation::Less,
            Self::relation_of(b, c) == Relation::Less,
        ensures
            Self::relation_of(a, c) == Relation::Less,
    ;

    /// Compares two values.
    fn order(&self, other: &Self) -> (r: Relation)
        ensures
            r == Self::relation_of(self.deep_view(), other.deep_view()),
    ;
}

impl Ordered for String {
    open spec fn relation_of(a: Seq<char>, b: Seq<char>) -> Relation {
        text::relation(a, b)
    }

    proof fn order_total(a: Seq<char>, b: Seq<char>) {
        text::lemma_relation(a, b);
    }

    proof fn order_transitive(a: Seq<char>, b: Seq<char>, c: Seq<char>) {
        text::lemma_before_transitive(a, b, c);
    }

    fn order(&self, other: &Self) -> (r: Relation) {
        compare(self.as_str(), other.as_str())
    }
}

impl Ordered for u32 {
    open spec fn relation_of(a: u32, b: u32) -> Relation {
        if a < b {
            Relation::Less
        } else if a > b {
            Relation::Greater
        } else {
            Relation::Equal
        }
    }

    proof fn order_total(a: u32, b: u32) {
    }

    proof fn order_transitive(a: u32, b: u32, c: u32) {
    }

    fn order(&self, other: &Self) -> (r: Relation) {
        if *self < *other {
            Relation::Less
        } else if *self > *other {
            Relation::Greater
        } else {
            Relation::Equal
        }
    }
}

/// Every key comes before the later ones.
pub open spec fn ascending<K: Ordered>(keys: Seq<K::V>) -> bool {
    forall|i: int, j: int|
        0 <= i < j < keys.len() ==> K::relation_of(#[trigger] keys[i], #[trigger] keys[j])
            == Relation::Less
}

/// The items of a set in ascending order.
pub open spec fn listed<K: Ordered>(set: Set<K::V>) -> Seq<K::V> {
    choose|items: Seq<K::V>| #[trigger] lists::<K>(items, set)
}

/// `items` are the items of a set in ascending order.
pub open spec fn lists<K: Ordered>(items: Seq<K::V>, set: Set<K::V>) -> bool {
    &&& ascending::<K>(items)
    &&& forall|i: int| 0 <= i < items.len() ==> set.contains(#[trigger] items[i])
    &&& forall|key: K::V| #[trigger] set.contains(key) ==> items.contains(key)
}

/// There is one ascending order of a set.
pub proof fn lemma_lists_unique<K: Ordered>(a: Seq<K::V>, b: Seq<K::V>, set: Set<K::V>)
    requires
        lists::<K>(a, set),
        lists::<K>(b, set),
    ensures
        a == b,
    decreases a.len(),
{
    if a.len() == 0 {
        if b.len() > 0 {
            assert(set.contains(b[0]));
        }
        assert(a =~= b);
    } else {
        assert(set.contains(a[0]));
        assert(b.len() > 0);
        let x = a.last();
        let y = b.last();
        assert(set.contains(x) && set.contains(y));
        let i = choose|i: int| 0 <= i < b.len() && b[i] == x;
        let j = choose|j: int| 0 <= j < a.len() && a[j] == y;
        assert(x == y) by {
            K::order_total(x, y);
            K::order_total(y, x);
            if i < b.len() - 1 {
                assert(K::relation_of(b[i], b[b.len() - 1]) == Relation::Less);
                if j < a.len() - 1 {
                    assert(K::relation_of(a[j], a[a.len() - 1]) == Relation::Less);
                }
            }
        }
        let less = set.remove(x);
        let a1 = a.drop_last();
        let b1 = b.drop_last();
        assert forall|k: int| 0 <= k < a1.len() implies less.contains(#[trigger] a1[k]) by {
            assert(K::relation_of(a[k], a[a.len() - 1]) == Relation::Less);
            K::order_total(a[k], x);
            assert(set.contains(a[k]));
        }
        assert forall|k: int| 0 <= k < b1.len() implies less.contains(#[trigger] b1[k]) by {
            assert(K::relation_of(b[k], b[b.len() - 1]) == Relation::Less);
            K::order_total(b[k], x);
            assert(set.contains(b[k]));
        }
        assert forall|key: K::V| #[trigger] less.contains(key) implies a1.contains(key) by {
            let k = choose|k: int| 0 <= k < a.len() && a[k] == key;
            assert(a1[k] == key);
        }
        assert forall|key: K::V| #[trigger] less.contains(key) implies b1.contains(key) by {
            let k = choose|k: int| 0 <= k < b.len() && b[k] == key;
            assert(b1[k] == key);
        }
        assert forall|m: int, n: int| 0 <= m < n < a1.len() implies K::relation_of(
            #[trigger] a1[m],
            #[trigger] a1[n],
        ) == Relation::Less by {
            assert(K::relation_of(a[m], a[n]) == Relation::Less);
        }
        assert forall|m: int, n: int| 0 <= m < n < b1.len() implies K::relation_of(
            #[trigger] b1[m],
            #[trigger] b1[n],
        ) == Relation::Less by {
            assert(K::relation_of(b[m], b[n]) == Relation::Less);
        }
        lemma_lists_unique::<K>(a1, b1, less);
        assert(a =~= a1.push(x));
        assert(b =~= b1.push(y));
    }
}

/// What lists a set is the set's ascending order.
pub proof fn lemma_listed<K: Ordered>(items: Seq<K::V>, set: Set<K::V>)
    requires
        lists::<K>(items, set),
    ensures
        items == listed::<K>(set),
{
    lemma_lists_unique::<K>(items, listed::<K>(set), set);
}

/// The keys of `entries`, in their order.
pub open spec fn entry_keys<K: Ordered, T: DeepView>(entries: Seq<(K, T)>) -> Seq<K::V> {
    entries.map_values(|entry: (K, T)| entry.0.deep_view())
}

/// A map that keeps its keys in ascending order.
#[derive(Debug, PartialEq, Eq)]
pub struct OrderedMap<K: Ordered, T: Model> {
    entries: Vec<(K, T)>,
}

impl<K: Ordered, T: Model> DeepView for OrderedMap<K, T> {
    type V = Map<K::V, T::V>;

    closed spec fn deep_view(&self) -> Map<K::V, T::V> {
        let entries = self.entries@;
        Map::new(
            |key: K::V| exists|i: int| 0 <= i < entries.len() && (#[trigger] entries[i]).0.deep_view() == key,
            |key: K::V|
                entries[choose|i: int|
                    0 <= i < entries.len() && (#[trigger] entries[i]).0.deep_view() == key].1.deep_view(),
        )
    }
}

impl<K: Ordered, T: Model> OrderedMap<K, T> {
    /// The keys, in ascending order.
    pub closed spec fn keys(&self) -> Seq<K::V> {
        entry_keys(self.entries@)
    }

    #[verifier::type_invariant]
    closed spec fn well_formed(&self) -> bool {
        ascending::<K>(entry_keys(self.entries@))
    }

    proof fn lemma_entry(&self, i: int)
        requires
            self.well_formed(),
            0 <= i < self.entries@.len(),
        ensures
            self.keys()[i] == self.entries@[i].0.deep_view(),
            self.deep_view().dom().contains(self.keys()[i]),
            self.deep_view()[self.keys()[i]] == self.entries@[i].1.deep_view(),
    {
        let key = self.entries@[i].0.deep_view();
        let j = choose|j: int|
            0 <= j < self.entries@.len() && (#[trigger] self.entries@[j]).0.deep_view() == key;
        assert(self.keys()[i] == key);
        assert(self.keys()[j] == key);
        if j != i {
            K::order_total(self.keys()[i], self.keys()[j]);
            if i < j {
                assert(K::relation_of(self.keys()[i], self.keys()[j]) == Relation::Less);
            } else {
                assert(K::relation_of(self.keys()[j], self.keys()[i]) == Relation::Less);
            }
        }
    }

    /// What the map's keys say of the map.
    pub open spec fn keys_describe(&self) -> bool {
        &&& ascending::<K>(self.keys())
        &&& forall|i: int|
            0 <= i < self.keys().len() ==> self.deep_view().dom().contains(#[trigger] self.keys()[i])
        &&& forall|key: K::V| #[trigger]
            self.deep_view().dom().contains(key) ==> self.keys().contains(key)
        &&& self.keys() == listed::<K>(self.deep_view().dom())
    }

    proof fn lemma_keys(&self)
        requires
            self.well_formed(),
        ensures
            self.keys_describe(),
    {
        assert forall|i: int| 0 <= i < self.keys().len() implies self.deep_view().dom().contains(
            #[trigger] self.keys()[i],
        ) by {
            self.lemma_entry(i);
        }
        assert forall|key: K::V|
            #[trigger] self.deep_view().dom().contains(key) implies
            self.keys().contains(key) by {
            let i = choose|i: int|
                0 <= i < self.entries@.len() && (#[trigger] self.entries@[i]).0.deep_view() == key;
            assert(self.keys()[i] == key);
        }
        lemma_listed::<K>(self.keys(), self.deep_view().dom());
    }

    /// A map without entries.
    pub fn new() -> (r: Self)
        ensures
            r.deep_view() == Map::<K::V, T::V>::empty(),
    {
        let r = OrderedMap { entries: Vec::new() };
        assert(r.deep_view() =~= Map::<K::V, T::V>::empty());
        r
    }

    /// The number of entries.
    pub fn len(&self) -> (r: usize)
        ensures
            r == self.keys().len(),
            self.keys_describe(),
    {
        proof {
            use_type_invariant(self);
            self.lemma_keys();
        }
        self.entries.len()
    }

    /// The key at a position of the ascending order.
    pub fn key_at(&self, index: usize) -> (r: &K)
        requires
            index < self.keys().len(),
        ensures
            r.deep_view() == self.keys()[index as int],
    {
        &self.entries[index].0
    }

    /// The value at a position of the ascending order of the keys.
    pub fn value_at(&self, index: usize) -> (r: &T)
        requires
            index < self.keys().len(),
        ensures
            self.deep_view().dom().contains(self.keys()[index as int]),
            r.deep_view() == self.deep_view()[self.keys()[index as int]],
    {
        proof {
            use_type_invariant(self);
            self.lemma_entry(index as int);
        }
        &self.entries[index].1
    }

    /// Looks for a key: its position, or the position at which it would stand.
    fn locate(&self, key: &K) -> (r: (bool, usize))
        requires
            self.well_formed(),
        ensures
            r.1 <= self.entries@.len(),
            r.0 ==> r.1 < self.entries@.len() && self.keys()[r.1 as int] == key.deep_view(),
            !r.0 ==> forall|i: int|
                0 <= i < r.1 ==> K::relation_of(#[trigger] self.keys()[i], key.deep_view())
                    == Relation::Less,
            !r.0 ==> forall|i: int|
                r.1 <= i < self.entries@.len() ==> K::relation_of(
                    key.deep_view(),
                    #[trigger] self.keys()[i],
                ) == Relation::Less,
    {
        let mut low: usize = 0;
        let mut high: usize = self.entries.len();
        while low < high
            invariant
                low <= high <= self.entries@.len(),
                self.well_formed(),
                forall|i: int|
                    0 <= i < low ==> K::relation_of(#[trigger] self.keys()[i], key.deep_view())
                        == Relation::Less,
                forall|i: int|
                    high <= i < self.entries@.len() ==> K::relation_of(
                        key.deep_view(),
                        #[trigger] self.keys()[i],
                    ) == Relation::Less,
            decreases high - low,
        {
            let middle: usize = low + (high - low) / 2;
            let ghost keys = self.keys();
            assert(keys[middle as int] == self.entries@[middle as int].0.deep_view());
            proof {
                K::order_total(keys[middle as int], key.deep_view());
            }
            match self.entries[middle].0.order(key) {
                Relation::Equal => {
                    return (true, middle);
                },
                Relation::Less => {
                    assert forall|i: int| 0 <= i < middle + 1 implies K::relation_of(
                        #[trigger] keys[i],
                        key.deep_view(),
                    ) == Relation::Less by {
                        if i < middle {
                            K::order_transitive(keys[i], keys[middle as int], key.deep_view());
                        }
                    }
                    low = middle + 1;
                },
                Relation::Greater => {
                    assert forall|i: int| middle <= i < keys.len() implies K::relation_of(
                        key.deep_view(),
                        #[trigger] keys[i],
                    ) == Relation::Less by {
                        K::order_total(key.deep_view(), keys[middle as int]);
                        if i > middle {
                            K::order_transitive(key.deep_view(), keys[middle as int], keys[i]);
                        }
                    }
                    high = middle;
                },
            }
        }
        (false, low)
    }

    proof fn lemma_absent(&self, key: K::V, at: int)
        requires
            0 <= at <= self.entries@.len(),
            forall|i: int|
                0 <= i < at ==> K::relation_of(#[trigger] self.keys()[i], key) == Relation::Less,
            forall|i: int|
                at <= i < self.entries@.len() ==> K::relation_of(key, #[trigger] self.keys()[i])
                    == Relation::Less,
        ensures
            !self.deep_view().dom().contains(key),
    {
        if self.deep_view().dom().contains(key) {
            let i = choose|i: int|
                0 <= i < self.entries@.len() && (#[trigger] self.entries@[i]).0.deep_view() == key;
            assert(self.keys()[i] == key);
            K::order_total(key, key);
        }
    }

    /// The value of a key.
    pub fn get(&self, key: &K) -> (r: Option<&T>)
        ensures
            match r {
                Some(value) => self.deep_view().dom().contains(key.deep_view())
                    && value.deep_view() == self.deep_view()[key.deep_view()],
                None => !self.deep_view().dom().contains(key.deep_view()),
            },
    {
        proof {
            use_type_invariant(self);
        }
        let (found, at) = self.locate(key);
        if found {
            proof {
                self.lemma_entry(at as int);
            }
            Some(&self.entries[at].1)
        } else {
            proof {
                self.lemma_absent(key.deep_view(), at as int);
            }
            None
        }
    }

    /// Whether a key has a value.
    pub fn contains_key(&self, key: &K) -> (r: bool)
        ensures
            r == self.deep_view().dom().contains(key.deep_view()),
    {
        self.get(key).is_some()
    }

    /// Gives a key a value, in place of the one it has.
    pub fn insert(&mut self, key: K, value: T)
        ensures
            final(self).deep_view() == old(self).deep_view().insert(key.deep_view(), value.deep_view()),
    {
        proof {
            use_type_invariant(&*self);
        }
        let ghost before = *self;
        let ghost key_view = key.deep_view();
        let ghost value_view = value.deep_view();
        let (found, at) = self.locate(&key);
        let mut entries: Vec<(K, T)> = Vec::new();
        std::mem::swap(&mut entries, &mut self.entries);
        if found {
            entries[at] = (key, value);
            assert(entry_keys(entries@) =~= before.keys());
        } else {
            entries.insert(at, (key, value));
            assert(entry_keys(entries@) =~= before.keys().insert(at as int, key_view));
            assert forall|i: int, j: int| 0 <= i < j < entries@.len() implies K::relation_of(
                #[trigger] entry_keys(entries@)[i],
                #[trigger] entry_keys(entries@)[j],
            ) == Relation::Less by {
                let keys = before.keys();
                if j < at {
                    assert(K::relation_of(keys[i], keys[j]) == Relation::Less);
                } else if j == at {
                    assert(K::relation_of(keys[i], key_view) == Relation::Less);
                } else if i < at {
                    assert(K::relation_of(keys[i], keys[j - 1]) == Relation::Less);
                } else if i == at {
                    assert(K::relation_of(key_view, keys[j - 1]) == Relation::Less);
                } else {
                    assert(K::relation_of(keys[i - 1], keys[j - 1]) == Relation::Less);
                }
            }
        }
        self.entries = entries;
        proof {
            let after = *self;
            if !found {
                before.lemma_absent(key_view, at as int);
            } else {
                before.lemma_entry(at as int);
            }
            after.lemma_entry(at as int);
            assert(after.keys()[at as int] == key_view);
            assert forall|k: K::V|
                #[trigger] after.deep_view().dom().contains(k) implies
                before.deep_view().insert(key_view, value_view).dom().contains(k)
                && after.deep_view()[k] == before.deep_view().insert(key_view, value_view)[k] by {
                let i = choose|i: int|
                    0 <= i < after.entries@.len() && (#[trigger] after.entries@[i]).0.deep_view() == k;
                after.lemma_entry(i);
                if i != at {
                    let was = if found || i < at { i } else { i - 1 };
                    before.lemma_entry(was);
                    assert(after.entries@[i] == before.entries@[was]);
                    K::order_total(after.keys()[i], after.keys()[at as int]);
                    if i < at {
                        assert(K::relation_of(after.keys()[i], after.keys()[at as int]) == Relation::Less);
                    } else {
                        K::order_total(after.keys()[at as int], after.keys()[i]);
                        assert(K::relation_of(after.keys()[at as int], after.keys()[i]) == Relation::Less);
                    }
                }
            }
            assert forall|k: K::V|
                #[trigger] before.deep_view().insert(key_view, value_view).dom().contains(k) implies
                after.deep_view().dom().contains(k) by {
                if k != key_view {
                    let i = choose|i: int|
                        0 <= i < before.entries@.len() && (#[trigger] before.entries@[i]).0.deep_view() == k;
                    before.lemma_entry(i);
                    let now = if found || i < at { i } else { i + 1 };
                    assert(after.entries@[now] == before.entries@[i]);
                    after.lemma_entry(now);
                }
            }
            assert(after.deep_view() =~= before.deep_view().insert(key_view, value_view));
        }
    }
}

impl<K: Ordered, T: Model> OrderedMap<K, T> {
    /// Whether every entry of `self` is an entry of `other`.
    fn within(&self, other: &Self) -> (r: bool)
        ensures
            r == forall|key: K::V| #[trigger]
                self.deep_view().dom().contains(key) ==> other.deep_view().dom().contains(key)
                    && other.deep_view()[key] == self.deep_view()[key],
    {
        let n: usize = self.len();
        let mut i: usize = 0;
        while i < n
            invariant
                i <= n == self.keys().len(),
                self.keys_describe(),
                forall|j: int|
                    0 <= j < i ==> other.deep_view().dom().contains(#[trigger] self.keys()[j])
                        && other.deep_view()[self.keys()[j]] == self.deep_view()[self.keys()[j]],
            decreases n - i,
        {
            let value = self.value_at(i);
            match other.get(self.key_at(i)) {
                Some(found) if found.same_as(value) => {},
                _ => {
                    return false;
                },
            }
            i += 1;
        }
        assert forall|key: K::V|
            #[trigger] self.deep_view().dom().contains(key) implies
            other.deep_view().dom().contains(key)
            && other.deep_view()[key] == self.deep_view()[key] by {
            let j = choose|j: int| 0 <= j < self.keys().len() && self.keys()[j] == key;
            assert(self.keys()[j] == key);
        }
        true
    }
}

impl<K: Ordered, T: Model> Model for OrderedMap<K, T> {
    fn copy_of(&self) -> (r: Self) {
        let n: usize = self.len();
        let mut out: OrderedMap<K, T> = OrderedMap::new();
        let mut i: usize = 0;
        while i < n
            invariant
                i <= n == self.keys().len(),
                self.keys_describe(),
                forall|key: K::V| #[trigger]
                    out.deep_view().dom().contains(key) ==> self.deep_view().dom().contains(key)
                        && out.deep_view()[key] == self.deep_view()[key],
                forall|j: int|
                    0 <= j < i ==> out.deep_view().dom().contains(#[trigger] self.keys()[j]),
            decreases n - i,
        {
            out.insert(self.key_at(i).copy_of(), self.value_at(i).copy_of());
            i += 1;
        }
        assert forall|key: K::V|
            #[trigger] self.deep_view().dom().contains(key) implies
            out.deep_view().dom().contains(key) by {
            let j = choose|j: int| 0 <= j < self.keys().len() && self.keys()[j] == key;
            assert(self.keys()[j] == key);
        }
        assert(out.deep_view() =~= self.deep_view());
        out
    }

    fn same_as(&self, other: &Self) -> (r: bool) {
        let r = self.within(other) && other.within(self);
        if r {
            assert(self.deep_view() =~= other.deep_view());
        }
        r
    }
}

/// A set that keeps its items in ascending order.
#[derive(Debug, PartialEq, Eq)]
pub struct OrderedSet<K: Ordered> {
    map: OrderedMap<K, bool>,
}

impl<K: Ordered> DeepView for OrderedSet<K> {
    type V = Set<K::V>;

    closed spec fn deep_view(&self) -> Set<K::V> {
        self.map.deep_view().dom()
    }
}

impl<K: Ordered> OrderedSet<K> {
    /// The items, in ascending order.
    pub closed spec fn items(&self) -> Seq<K::V> {
        self.map.keys()
    }

    /// What the set's items say of the set.
    pub open spec fn items_describe(&self) -> bool {
        &&& ascending::<K>(self.items())
        &&& forall|i: int|
            0 <= i < self.items().len() ==> self.deep_view().contains(#[trigger] self.items()[i])
        &&& forall|key: K::V| #[trigger]
            self.deep_view().contains(key) ==> self.items().contains(key)
        &&& self.items() == listed::<K>(self.deep_view())
    }

    #[verifier::type_invariant]
    closed spec fn marked(&self) -> bool {
        forall|key: K::V| #[trigger]
            self.map.deep_view().dom().contains(key) ==> self.map.deep_view()[key]
    }

    /// A set without items.
    pub fn new() -> (r: Self)
        ensures
            r.deep_view() == Set::<K::V>::empty(),
    {
        let r = OrderedSet { map: OrderedMap::new() };
        assert(r.deep_view() =~= Set::<K::V>::empty());
        r
    }

    /// The number of items.
    pub fn len(&self) -> (r: usize)
        ensures
            r == self.items().len(),
            self.items_describe(),
    {
        self.map.len()
    }

    /// The item at a position of the ascending order.
    pub fn item_at(&self, index: usize) -> (r: &K)
        requires
            index < self.items().len(),
        ensures
            r.deep_view() == self.items()[index as int],
    {
        self.map.key_at(index)
    }

    /// Whether `item` is in the set.
    pub fn contains(&self, item: &K) -> (r: bool)
        ensures
            r == self.deep_view().contains(item.deep_view()),
    {
        self.map.contains_key(item)
    }

    /// Puts `item` in the set; says whether it was not there before.
    pub fn insert(&mut self, item: K) -> (r: bool)
        ensures
            r == !old(self).deep_view().contains(item.deep_view()),
            final(self).deep_view() == old(self).deep_view().insert(item.deep_view()),
    {
        proof {
            use_type_invariant(&*self);
        }
        let ghost view = item.deep_view();
        let ghost before = self.deep_view();
        let fresh = !self.map.contains_key(&item);
        let mut map: OrderedMap<K, bool> = OrderedMap::new();
        std::mem::swap(&mut map, &mut self.map);
        map.insert(item, true);
        self.map = map;
        assert(self.deep_view() =~= before.insert(view));
        fresh
    }

    /// The set of the items of a list.
    pub fn from_items(items: Vec<K>) -> (r: Self)
        ensures
            r.deep_view() == items.deep_view().to_set(),
    {
        let mut out: OrderedSet<K> = OrderedSet::new();
        let mut i: usize = 0;
        while i < items.len()
            invariant
                i <= items@.len(),
                out.deep_view() == items.deep_view().take(i as int).to_set(),
            decreases items@.len() - i,
        {
            let ghost before = out.deep_view();
            out.insert(items[i].copy_of());
            proof {
                let view = items.deep_view();
                assert(view.take(i + 1) =~= view.take(i as int).push(view[i as int]));
                let from = view.take(i as int);
                assert(from.push(view[i as int]).to_set() =~= from.to_set().insert(view[i as int])) by {
                    assert forall|x: K::V|
                        #[trigger] from.to_set().insert(view[i as int]).contains(x) implies
                        from.push(view[i as int]).to_set().contains(x) by {
                        if x == view[i as int] {
                            assert(from.push(view[i as int])[i as int] == x);
                        } else {
                            let j = choose|j: int| 0 <= j < from.len() && from[j] == x;
                            assert(from.push(view[i as int])[j] == x);
                        }
                    }
                }
            }
            i += 1;
        }
        assert(items.deep_view().take(i as int) =~= items.deep_view());
        out
    }
}

impl<K: Ordered> Model for OrderedSet<K> {
    fn copy_of(&self) -> (r: Self) {
        proof {
            use_type_invariant(self);
        }
        OrderedSet { map: self.map.copy_of() }
    }

    fn same_as(&self, other: &Self) -> (r: bool) {
        proof {
            use_type_invariant(self);
            use_type_invariant(other);
        }
        let r = self.map.same_as(&other.map);
        proof {
            if self.deep_view() =~= other.deep_view() {
                assert(self.map.deep_view() =~= other.map.deep_view());
            }
        }
        r
    }
}

/// `items` with `item` put in front of the later ones that it comes before.
pub open spec fn placed<K: Ordered, X>(items: Seq<(K::V, X)>, item: (K::V, X)) -> Seq<(K::V, X)>
    decreases items.len(),
{
    if items.len() > 0 && K::relation_of(item.0, items.last().0) == Relation::Less {
        placed::<K, X>(items.drop_last(), item).push(items.last())
    } else {
        items.push(item)
    }
}

/// `items` in ascending order of their keys; those with equal keys stay in their order.
pub open spec fn sorted_pairs<K: Ordered, X>(items: Seq<(K::V, X)>) -> Seq<(K::V, X)>
    decreases items.len(),
{
    if items.len() == 0 {
        items
    } else {
        placed::<K, X>(sorted_pairs::<K, X>(items.drop_last()), items.last())
    }
}

/// Placing an item keeps the others.
pub proof fn lemma_placed<K: Ordered, X>(items: Seq<(K::V, X)>, item: (K::V, X))
    ensures
        placed::<K, X>(items, item).len() == items.len() + 1,
        placed::<K, X>(items, item).to_multiset() == items.to_multiset().insert(item),
        forall|i: int|
            0 <= i < placed::<K, X>(items, item).len() ==> #[trigger] placed::<K, X>(items, item)[i]
                == item || items.contains(placed::<K, X>(items, item)[i]),
    decreases items.len(),
{
    broadcast use vstd::seq_lib::group_to_multiset_ensures;

    if items.len() > 0 && K::relation_of(item.0, items.last().0) == Relation::Less {
        let shorter = items.drop_last();
        lemma_placed::<K, X>(shorter, item);
        assert(items =~= shorter.push(items.last()));
        let inner = placed::<K, X>(shorter, item);
        assert(placed::<K, X>(items, item) == inner.push(items.last()));
        assert(inner.push(items.last()).to_multiset() =~= items.to_multiset().insert(item));
        assert forall|i: int|
            0 <= i < placed::<K, X>(items, item).len() implies
            #[trigger] placed::<K, X>(items, item)[i]
            == item || items.contains(placed::<K, X>(items, item)[i]) by {
            if i < inner.len() {
                assert(inner[i] == placed::<K, X>(items, item)[i]);
                if inner[i] != item {
                    let j = choose|j: int| 0 <= j < shorter.len() && shorter[j] == inner[i];
                    assert(items[j] == inner[i]);
                }
            } else {
                assert(items[items.len() - 1] == placed::<K, X>(items, item)[i]);
            }
        }
    } else {
        assert forall|i: int|
            0 <= i < items.push(item).len() implies
            #[trigger] items.push(item)[i] == item || items.contains(items.push(item)[i]) by {
            if i < items.len() {
                assert(items[i] == items.push(item)[i]);
            }
        }
    }
}

/// No item comes before an earlier one.
pub open spec fn in_order<K: Ordered, X>(items: Seq<(K::V, X)>) -> bool {
    forall|i: int, j: int|
        0 <= i < j < items.len() ==> K::relation_of(#[trigger] items[j].0, #[trigger] items[i].0)
            != Relation::Less
}

proof fn lemma_placed_in_order<K: Ordered, X>(items: Seq<(K::V, X)>, item: (K::V, X))
    requires
        in_order::<K, X>(items),
    ensures
        in_order::<K, X>(placed::<K, X>(items, item)),
    decreases items.len(),
{
    let out = placed::<K, X>(items, item);
    lemma_placed::<K, X>(items, item);
    if items.len() > 0 && K::relation_of(item.0, items.last().0) == Relation::Less {
        let shorter = items.drop_last();
        lemma_placed_in_order::<K, X>(shorter, item);
        lemma_placed::<K, X>(shorter, item);
        let inner = placed::<K, X>(shorter, item);
        assert forall|i: int, j: int| 0 <= i < j < out.len() implies K::relation_of(
            #[trigger] out[j].0,
            #[trigger] out[i].0,
        ) != Relation::Less by {
            if j < inner.len() {
                assert(out[j] == inner[j] && out[i] == inner[i]);
            } else {
                assert(out[j] == items.last());
                assert(out[i] == inner[i]);
                if inner[i] == item {
                    K::order_total(items.last().0, item.0);
                } else {
                    let k = choose|k: int| 0 <= k < shorter.len() && shorter[k] == inner[i];
                    assert(items[k] == inner[i]);
                    assert(K::relation_of(items[items.len() - 1].0, items[k].0) != Relation::Less);
                }
            }
        }
    } else {
        assert forall|i: int, j: int| 0 <= i < j < out.len() implies K::relation_of(
            #[trigger] out[j].0,
            #[trigger] out[i].0,
        ) != Relation::Less by {
            if j == items.len() {
                let last = items.last().0;
                if i < items.len() - 1 {
                    if K::relation_of(item.0, items[i].0) == Relation::Less {
                        K::order_total(items[i].0, last);
                        K::order_total(last, items[i].0);
                        assert(K::relation_of(items[items.len() - 1].0, items[i].0) != Relation::Less);
                        if items[i].0 != last {
                            K::order_transitive(item.0, items[i].0, last);
                        }
                    }
                }
            } else {
                assert(out[i] == items[i] && out[j] == items[j]);
            }
        }
    }
}

/// Sorting reorders: what comes out is in order, and is what went in.
pub proof fn lemma_sorted_pairs<K: Ordered, X>(items: Seq<(K::V, X)>)
    ensures
        in_order::<K, X>(sorted_pairs::<K, X>(items)),
        sorted_pairs::<K, X>(items).len() == items.len(),
        sorted_pairs::<K, X>(items).to_multiset() == items.to_multiset(),
        forall|i: int|
            0 <= i < items.len() ==> items.contains(#[trigger] sorted_pairs::<K, X>(items)[i]),
    decreases items.len(),
{
    broadcast use vstd::seq_lib::group_to_multiset_ensures;

    if items.len() > 0 {
        let shorter = items.drop_last();
        lemma_sorted_pairs::<K, X>(shorter);
        let inner = sorted_pairs::<K, X>(shorter);
        lemma_placed::<K, X>(inner, items.last());
        lemma_placed_in_order::<K, X>(inner, items.last());
        assert(items =~= shorter.push(items.last()));
        assert forall|i: int| 0 <= i < items.len() implies items.contains(
            #[trigger] sorted_pairs::<K, X>(items)[i],
        ) by {
            let out = sorted_pairs::<K, X>(items);
            if out[i] == items.last() {
                assert(items[items.len() - 1] == out[i]);
            } else {
                let k = choose|k: int| 0 <= k < inner.len() && inner[k] == out[i];
                assert(shorter.contains(inner[k]));
                let m = choose|m: int| 0 <= m < shorter.len() && shorter[m] == inner[k];
                assert(items[m] == out[i]);
            }
        }
    }
}

/// Sorting keeps distinct what a label tells apart.
pub proof fn lemma_sorted_distinct<K: Ordered, X, L>(
    items: Seq<(K::V, X)>,
    label: spec_fn((K::V, X)) -> L,
)
    requires
        forall|i: int, j: int|
            0 <= i < j < items.len() ==> label(#[trigger] items[i]) != label(#[trigger] items[j]),
    ensures
        forall|i: int, j: int|
            0 <= i < j < items.len() ==> label(#[trigger] sorted_pairs::<K, X>(items)[i]) != label(
                #[trigger] sorted_pairs::<K, X>(items)[j],
            ),
    decreases items.len(),
{
    if items.len() > 0 {
        let shorter = items.drop_last();
        assert forall|i: int, j: int| 0 <= i < j < shorter.len() implies label(
            #[trigger] shorter[i],
        ) != label(#[trigger] shorter[j]) by {
            assert(label(items[i]) != label(items[j]));
        }
        lemma_sorted_distinct::<K, X, L>(shorter, label);
        lemma_sorted_pairs::<K, X>(shorter);
        let inner = sorted_pairs::<K, X>(shorter);
        assert forall|i: int| 0 <= i < inner.len() implies label(#[trigger] inner[i]) != label(
            items.last(),
        ) by {
            assert(shorter.contains(inner[i]));
            let k = choose|k: int| 0 <= k < shorter.len() && shorter[k] == inner[i];
            assert(label(items[k]) != label(items[items.len() - 1]));
        }
        lemma_placed_distinct::<K, X, L>(inner, items.last(), label);
    }
}

proof fn lemma_placed_distinct<K: Ordered, X, L>(
    items: Seq<(K::V, X)>,
    item: (K::V, X),
    label: spec_fn((K::V, X)) -> L,
)
    requires
        forall|i: int, j: int|
            0 <= i < j < items.len() ==> label(#[trigger] items[i]) != label(#[trigger] items[j]),
        forall|i: int| 0 <= i < items.len() ==> label(#[trigger] items[i]) != label(item),
    ensures
        forall|i: int, j: int|
            0 <= i < j < items.len() + 1 ==> label(#[trigger] placed::<K, X>(items, item)[i])
                != label(#[trigger] placed::<K, X>(items, item)[j]),
    decreases items.len(),
{
    if items.len() > 0 && K::relation_of(item.0, items.last().0) == Relation::Less {
        let shorter = items.drop_last();
        assert forall|i: int, j: int| 0 <= i < j < shorter.len() implies label(
            #[trigger] shorter[i],
        ) != label(#[trigger] shorter[j]) by {
            assert(label(items[i]) != label(items[j]));
        }
        assert forall|i: int| 0 <= i < shorter.len() implies label(#[trigger] shorter[i]) != label(
            item,
        ) by {
            assert(label(items[i]) != label(item));
        }
        lemma_placed_distinct::<K, X, L>(shorter, item, label);
        lemma_placed::<K, X>(shorter, item);
        let inner = placed::<K, X>(shorter, item);
        let out = placed::<K, X>(items, item);
        assert forall|i: int, j: int| 0 <= i < j < items.len() + 1 implies label(#[trigger] out[i])
            != label(#[trigger] out[j]) by {
            if j < inner.len() {
                assert(out[i] == inner[i] && out[j] == inner[j]);
            } else {
                assert(out[i] == inner[i]);
                assert(out[j] == items[items.len() - 1]);
                if inner[i] != item {
                    let k = choose|k: int| 0 <= k < shorter.len() && shorter[k] == inner[i];
                    assert(label(items[k]) != label(items[items.len() - 1]));
                }
            }
        }
    } else {
        let out = items.push(item);
        assert forall|i: int, j: int| 0 <= i < j < items.len() + 1 implies label(#[trigger] out[i])
            != label(#[trigger] out[j]) by {
            assert(out[i] == items[i]);
            if j < items.len() {
                assert(out[j] == items[j]);
            }
        }
    }
}

/// Sorts items by their keys; those with equal keys stay in their order.
pub fn sort_pairs<K: Ordered, T: Model>(items: Vec<(K, T)>) -> (r: Vec<(K, T)>)
    ensures
        r.deep_view() == sorted_pairs::<K, T::V>(items.deep_view()),
{
    let mut out: Vec<(K, T)> = Vec::new();
    let mut i: usize = 0;
    assert(out.deep_view() =~= items.deep_view().take(0));
    while i < items.len()
        invariant
            i <= items@.len(),
            out@.len() == i,
            out.deep_view() == sorted_pairs::<K, T::V>(items.deep_view().take(i as int)),
        decreases items@.len() - i,
    {
        let item: (K, T) = (items[i].0.copy_of(), items[i].1.copy_of());
        let ghost view = item.deep_view();
        let ghost sorted = out.deep_view();
        assert(view == items.deep_view()[i as int]);
        let mut at: usize = i;
        assert(sorted.take(i as int) =~= sorted);
        assert(placed::<K, T::V>(sorted, view) + sorted.skip(i as int) =~= placed::<K, T::V>(
            sorted,
            view,
        ));
        while at > 0 && matches!(item.0.order(&out[at - 1].0), Relation::Less)
            invariant
                at <= i == out@.len(),
                item.deep_view() == view,
                sorted == out.deep_view(),
                placed::<K, T::V>(sorted, view) == placed::<K, T::V>(sorted.take(at as int), view)
                    + sorted.skip(at as int),
            decreases at,
        {
            let ghost shorter = sorted.take(at as int);
            assert(shorter.drop_last() =~= sorted.take(at - 1));
            assert(shorter.last() == sorted[at - 1]);
            assert(sorted[at - 1] == out@[at - 1].deep_view());
            assert(placed::<K, T::V>(sorted.take(at as int), view) + sorted.skip(at as int)
                =~= placed::<K, T::V>(sorted.take(at - 1), view) + sorted.skip(at - 1));
            at -= 1;
        }
        proof {
            let shorter = sorted.take(at as int);
            if at > 0 {
                assert(shorter.last() == sorted[at - 1]);
                assert(sorted[at - 1] == out@[at - 1].deep_view());
            }
            assert(placed::<K, T::V>(shorter, view) == shorter.push(view));
        }
        out.insert(at, item);
        proof {
            assert(out.deep_view() =~= sorted.take(at as int).push(view) + sorted.skip(at as int));
            let whole = items.deep_view();
            assert(whole.take(i + 1).drop_last() =~= whole.take(i as int));
            assert(whole.take(i + 1).last() == view);
        }
        i += 1;
    }
    assert(items.deep_view().take(i as int) =~= items.deep_view());
    out
}

/// `items` in ascending order; equal ones stay in their order.
pub open spec fn sorted_items<K: Ordered>(items: Seq<K::V>) -> Seq<K::V> {
    sorted_pairs::<K, bool>(items.map_values(|item: K::V| (item, true))).map_values(
        |pair: (K::V, bool)| pair.0,
    )
}

/// Sorts a list.
pub fn sort_items<K: Ordered>(items: &Vec<K>) -> (r: Vec<K>)
    ensures
        r.deep_view() == sorted_items::<K>(items.deep_view()),
{
    let ghost view = items.deep_view();
    let mut pairs: Vec<(K, bool)> = Vec::new();
    let mut i: usize = 0;
    while i < items.len()
        invariant
            i <= items@.len(),
            view == items.deep_view(),
            pairs@.len() == i,
            forall|j: int| 0 <= j < i ==> #[trigger] pairs@[j].deep_view() == (view[j], true),
        decreases items@.len() - i,
    {
        assert(view[i as int] == items@[i as int].deep_view());
        pairs.push((items[i].copy_of(), true));
        i += 1;
    }
    assert(pairs.deep_view() =~= view.map_values(|item: K::V| (item, true)));
    let sorted = sort_pairs(pairs);
    let ghost ordered = sorted.deep_view();
    let mut out: Vec<K> = Vec::new();
    let mut k: usize = 0;
    while k < sorted.len()
        invariant
            k <= sorted@.len(),
            ordered == sorted.deep_view(),
            out@.len() == k,
            forall|j: int| 0 <= j < k ==> #[trigger] out@[j].deep_view() == ordered[j].0,
        decreases sorted@.len() - k,
    {
        assert(ordered[k as int].0 == sorted@[k as int].0.deep_view());
        out.push(sorted[k].0.copy_of());
        k += 1;
    }
    assert(out.deep_view() =~= sorted_items::<K>(view));
    out
}

/// Sorting a list keeps its length and adds nothing, and no item comes before a lesser one.
pub proof fn law_sorting_orders_the_items<K: Ordered>(items: Seq<K::V>)
    ensures
        sorted_items::<K>(items).len() == items.len(),
        forall|i: int|
            0 <= i < items.len() ==> items.contains(#[trigger] sorted_items::<K>(items)[i]),
        forall|i: int, j: int|
            0 <= i < j < items.len() ==> K::relation_of(
                #[trigger] sorted_items::<K>(items)[j],
                #[trigger] sorted_items::<K>(items)[i],
            ) != Relation::Less,
{
    let pairs = items.map_values(|item: K::V| (item, true));
    lemma_sorted_pairs::<K, bool>(pairs);
    let sorted = sorted_pairs::<K, bool>(pairs);
    assert forall|i: int| 0 <= i < items.len() implies items.contains(
        #[trigger] sorted_items::<K>(items)[i],
    ) by {
        assert(pairs.contains(sorted[i]));
        let k = choose|k: int| 0 <= k < pairs.len() && pairs[k] == sorted[i];
        assert(items[k] == sorted_items::<K>(items)[i]);
    }
    assert forall|i: int, j: int| 0 <= i < j < items.len() implies K::relation_of(
        #[trigger] sorted_items::<K>(items)[j],
        #[trigger] sorted_items::<K>(items)[i],
    ) != Relation::Less by {
        assert(K::relation_of(sorted[j].0, sorted[i].0) != Relation::Less);
    }
}

/// Sorting does not look at what goes with the keys.
pub proof fn lemma_sorted_mapped<K: Ordered, X, Y>(items: Seq<(K::V, X)>, f: spec_fn(X) -> Y)
    ensures
        sorted_pairs::<K, Y>(items.map_values(|pair: (K::V, X)| (pair.0, f(pair.1))))
            == sorted_pairs::<K, X>(items).map_values(|pair: (K::V, X)| (pair.0, f(pair.1))),
    decreases items.len(),
{
    let g = |pair: (K::V, X)| (pair.0, f(pair.1));
    let mapped = items.map_values(g);
    if items.len() > 0 {
        let shorter = items.drop_last();
        lemma_sorted_mapped::<K, X, Y>(shorter, f);
        assert(mapped.drop_last() =~= shorter.map_values(g));
        assert(mapped.last() == g(items.last()));
        lemma_placed_mapped::<K, X, Y>(sorted_pairs::<K, X>(shorter), items.last(), f);
    } else {
        assert(sorted_pairs::<K, Y>(mapped) =~= sorted_pairs::<K, X>(items).map_values(g));
    }
}

proof fn lemma_placed_mapped<K: Ordered, X, Y>(
    items: Seq<(K::V, X)>,
    item: (K::V, X),
    f: spec_fn(X) -> Y,
)
    ensures
        placed::<K, Y>(
            items.map_values(|pair: (K::V, X)| (pair.0, f(pair.1))),
            (item.0, f(item.1)),
        ) == placed::<K, X>(items, item).map_values(|pair: (K::V, X)| (pair.0, f(pair.1))),
    decreases items.len(),
{
    let g = |pair: (K::V, X)| (pair.0, f(pair.1));
    let mapped = items.map_values(g);
    if items.len() > 0 && K::relation_of(item.0, items.last().0) == Relation::Less {
        let shorter = items.drop_last();
        lemma_placed_mapped::<K, X, Y>(shorter, item, f);
        assert(mapped.drop_last() =~= shorter.map_values(g));
        assert(placed::<K, Y>(mapped, g(item)) =~= placed::<K, X>(items, item).map_values(g));
    } else {
        if items.len() > 0 {
            assert(mapped.last() == g(items.last()));
        }
        assert(placed::<K, Y>(mapped, g(item)) =~= placed::<K, X>(items, item).map_values(g));
    }
}

/// The keys of pairs, in their order.
pub open spec fn pair_keys<K: Ordered, X>(items: Seq<(K::V, X)>) -> Seq<K::V> {
    items.map_values(|pair: (K::V, X)| pair.0)
}

/// Sorted pairs with distinct keys list those keys.
pub proof fn lemma_sorted_lists<K: Ordered, X>(items: Seq<(K::V, X)>, set: Set<K::V>)
    requires
        forall|i: int, j: int|
            0 <= i < j < items.len() ==> (#[trigger] items[i]).0 != (#[trigger] items[j]).0,
        forall|i: int| 0 <= i < items.len() ==> set.contains((#[trigger] items[i]).0),
        forall|key: K::V| #[trigger]
            set.contains(key) ==> exists|i: int| 0 <= i < items.len() && (#[trigger] items[i]).0 == key,
    ensures
        lists::<K>(pair_keys::<K, X>(sorted_pairs::<K, X>(items)), set),
{
    let sorted = sorted_pairs::<K, X>(items);
    let keys = pair_keys::<K, X>(sorted);
    lemma_sorted_pairs::<K, X>(items);
    let label = |pair: (K::V, X)| pair.0;
    assert forall|i: int, j: int| 0 <= i < j < items.len() implies label(#[trigger] items[i])
        != label(#[trigger] items[j]) by {
        assert(items[i].0 != items[j].0);
    }
    lemma_sorted_distinct::<K, X, K::V>(items, label);
    assert forall|i: int, j: int| 0 <= i < j < keys.len() implies K::relation_of(
        #[trigger] keys[i],
        #[trigger] keys[j],
    ) == Relation::Less by {
        assert(label(sorted[i]) != label(sorted[j]));
        assert(K::relation_of(sorted[j].0, sorted[i].0) != Relation::Less);
        K::order_total(sorted[i].0, sorted[j].0);
        K::order_total(sorted[j].0, sorted[i].0);
    }
    assert forall|i: int| 0 <= i < keys.len() implies set.contains(#[trigger] keys[i]) by {
        assert(items.contains(sorted[i]));
        let k = choose|k: int| 0 <= k < items.len() && items[k] == sorted[i];
        assert(set.contains(items[k].0));
    }
    assert forall|key: K::V| #[trigger] set.contains(key) implies keys.contains(key) by {
        let i = choose|i: int| 0 <= i < items.len() && (#[trigger] items[i]).0 == key;
        lemma_sorted_holds::<K, X>(items, items[i]);
        let k = choose|k: int| 0 <= k < sorted.len() && sorted[k] == items[i];
        assert(keys[k] == key);
    }
}

/// Sorting keeps every item.
pub proof fn lemma_sorted_holds<K: Ordered, X>(items: Seq<(K::V, X)>, item: (K::V, X))
    ensures
        sorted_pairs::<K, X>(items).contains(item) <==> items.contains(item),
{
    let sorted = sorted_pairs::<K, X>(items);
    lemma_sorted_pairs::<K, X>(items);
    items.to_multiset_ensures();
    sorted.to_multiset_ensures();
    assert(items.contains(item) <==> items.to_multiset().count(item) > 0);
    assert(sorted.contains(item) <==> sorted.to_multiset().count(item) > 0);
}

/// Pairs with distinct keys sort alike, in whatever order they come.
pub proof fn lemma_same_sorted<K: Ordered, X>(a: Seq<(K::V, X)>, b: Seq<(K::V, X)>)
    requires
        forall|i: int, j: int|
            0 <= i < j < a.len() ==> (#[trigger] a[i]).0 != (#[trigger] a[j]).0,
        forall|i: int, j: int|
            0 <= i < j < b.len() ==> (#[trigger] b[i]).0 != (#[trigger] b[j]).0,
        forall|pair: (K::V, X)| #[trigger] a.contains(pair) <==> b.contains(pair),
    ensures
        sorted_pairs::<K, X>(a) == sorted_pairs::<K, X>(b),
{
    let set = Set::new(
        |key: K::V| exists|i: int| 0 <= i < a.len() && (#[trigger] a[i]).0 == key,
    );
    let sa = sorted_pairs::<K, X>(a);
    let sb = sorted_pairs::<K, X>(b);
    assert forall|i: int| 0 <= i < b.len() implies set.contains((#[trigger] b[i]).0) by {
        assert(b.contains(b[i]));
        assert(a.contains(b[i]));
        let k = choose|k: int| 0 <= k < a.len() && a[k] == b[i];
        assert(a[k].0 == b[i].0);
    }
    assert forall|key: K::V| #[trigger] set.contains(key) implies exists|i: int|
        0 <= i < b.len() && (#[trigger] b[i]).0 == key by {
        let i = choose|i: int| 0 <= i < a.len() && (#[trigger] a[i]).0 == key;
        assert(a.contains(a[i]));
        assert(b.contains(a[i]));
        let k = choose|k: int| 0 <= k < b.len() && b[k] == a[i];
        assert(b[k].0 == key);
    }
    assert forall|i: int| 0 <= i < a.len() implies set.contains((#[trigger] a[i]).0) by {}
    lemma_sorted_lists::<K, X>(a, set);
    lemma_sorted_lists::<K, X>(b, set);
    lemma_lists_unique::<K>(pair_keys::<K, X>(sa), pair_keys::<K, X>(sb), set);
    lemma_sorted_pairs::<K, X>(a);
    lemma_sorted_pairs::<K, X>(b);
    assert(pair_keys::<K, X>(sa).len() == sa.len());
    assert(pair_keys::<K, X>(sb).len() == sb.len());
    assert forall|i: int| 0 <= i < sa.len() implies sa[i] == sb[i] by {
        assert(pair_keys::<K, X>(sa)[i] == sa[i].0);
        assert(pair_keys::<K, X>(sb)[i] == sb[i].0);
        assert(a.contains(sa[i]));
        assert(b.contains(sb[i]));
        assert(a.contains(sb[i]));
        let m = choose|m: int| 0 <= m < a.len() && a[m] == sa[i];
        let n = choose|n: int| 0 <= n < a.len() && a[n] == sb[i];
        if m < n {
            assert(a[m].0 != a[n].0);
        } else if n < m {
            assert(a[n].0 != a[m].0);
        }
    }
    assert(sa =~= sb);
}

/// A finite set has an ascending order, as long as it is large.
pub proof fn lemma_finite_is_listed<K: Ordered>(set: Set<K::V>)
    requires
        set.finite(),
    ensures
        lists::<K>(listed::<K>(set), set),
        listed::<K>(set).len() == set.len(),
    decreases set.len(),
{
    if set.len() == 0 {
        let none = Seq::<K::V>::empty();
        assert(set =~= Set::empty());
        assert(lists::<K>(none, set));
        lemma_listed::<K>(none, set);
    } else {
        let x = set.choose();
        let less = set.remove(x);
        lemma_finite_is_listed::<K>(less);
        let rest = listed::<K>(less);
        let pairs = rest.push(x).map_values(|key: K::V| (key, true));
        assert forall|i: int, j: int| 0 <= i < j < pairs.len() implies (#[trigger] pairs[i]).0 != (
        #[trigger] pairs[j]).0 by {
            if j < rest.len() {
                assert(K::relation_of(rest[i], rest[j]) == Relation::Less);
                K::order_total(rest[i], rest[j]);
            } else {
                assert(less.contains(rest[i]));
            }
        }
        assert forall|i: int| 0 <= i < pairs.len() implies set.contains((#[trigger] pairs[i]).0) by {
            if i < rest.len() {
                assert(less.contains(rest[i]));
            }
        }
        assert forall|key: K::V| #[trigger] set.contains(key) implies exists|i: int|
            0 <= i < pairs.len() && (#[trigger] pairs[i]).0 == key by {
            if key == x {
                assert(pairs[rest.len() as int].0 == key);
            } else {
                assert(less.contains(key));
                let k = choose|k: int| 0 <= k < rest.len() && rest[k] == key;
                assert(pairs[k].0 == key);
            }
        }
        lemma_sorted_lists::<K, bool>(pairs, set);
        lemma_sorted_pairs::<K, bool>(pairs);
        lemma_listed::<K>(pair_keys::<K, bool>(sorted_pairs::<K, bool>(pairs)), set);
    }
}

} // verus!
