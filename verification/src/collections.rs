//! Maps and sets keyed by digests, public keys, slots and views.
//!
//! The keys here are 32-byte values and small structs of integers. For
//! `std`'s hash collections the prover knows that a key is found again only
//! where it has a model of how the key hashes, which it has for the
//! primitive integers and not for these types. So the collections are kept
//! as association lists in which no key occurs twice: finding a key is a
//! scan, and what a collection holds is a `Map` or a `Set`.

use vstd::prelude::*;

verus! {

/// A value usable as a key: copyable, with a decidable equality that agrees
/// with mathematical equality.
pub trait Key: Copy {
    fn same(&self, other: &Self) -> (r: bool)
        ensures
            r == (*self == *other),
    ;
}

impl Key for u64 {
    fn same(&self, other: &Self) -> (r: bool) {
        *self == *other
    }
}

/// The models of the values of a map.
pub open spec fn views_of<K, V: View>(m: Map<K, V>) -> Map<K, V::V> {
    Map::new(|k: K| m.contains_key(k), |k: K| m[k]@)
}

/// The models of the items of a sequence.
pub open spec fn each_view<V: View>(s: Seq<V>) -> Seq<V::V> {
    Seq::new(s.len(), |i: int| s[i]@)
}

/// The model of an optional value.
pub open spec fn opt_view<V: View>(o: Option<V>) -> Option<V::V> {
    match o {
        Some(v) => Some(v@),
        None => None,
    }
}

/// What has an age by which it is given up: a height, or a slot.
pub trait Dated: Copy {
    spec fn date(self) -> u64;

    fn dated(&self) -> (d: u64)
        ensures
            d == self.date(),
    ;
}

impl Dated for u64 {
    open spec fn date(self) -> u64 {
        self
    }

    fn dated(&self) -> (d: u64) {
        *self
    }
}

/// The first components of a sequence of pairs.
pub open spec fn firsts<K, V>(s: Seq<(K, V)>) -> Seq<K> {
    Seq::new(s.len(), |i: int| s[i].0)
}

/// Whether some entry of `s` has the key `k`.
pub open spec fn has_key<K, V>(s: Seq<(K, V)>, k: K) -> bool {
    exists|i: int| 0 <= i < s.len() && #[trigger] s[i].0 == k
}

/// The position of the first entry of `s` with the key `k`.
pub open spec fn first_at<K, V>(s: Seq<(K, V)>, k: K) -> int {
    choose|i: int|
        0 <= i < s.len() && #[trigger] s[i].0 == k && forall|j: int|
            0 <= j < i ==> #[trigger] s[j].0 != k
}

/// The map that an association list denotes; of several entries with one
/// key the first counts.
pub open spec fn as_map<K, V>(s: Seq<(K, V)>) -> Map<K, V> {
    Map::new(|k: K| has_key(s, k), |k: K| s[first_at(s, k)].1)
}

/// The list with `k` bound to `v`: in place of the first entry for `k`, or
/// at the end where there is none.
pub open spec fn upsert<K, V>(s: Seq<(K, V)>, k: K, v: V) -> Seq<(K, V)> {
    if has_key(s, k) {
        s.update(first_at(s, k), (k, v))
    } else {
        s.push((k, v))
    }
}

/// A key occurs among the first `n + 1` entries where it occurs among the
/// first `n` or is the key of the entry after them.
pub proof fn lemma_has_key_take<K, V>(s: Seq<(K, V)>, n: int, k: K)
    requires
        0 <= n < s.len(),
    ensures
        has_key(s.take(n + 1), k) == (has_key(s.take(n), k) || s[n].0 == k),
        has_key(s.take(s.len() as int), k) == has_key(s, k),
{
    assert(s.take(s.len() as int) =~= s);
    let a = s.take(n);
    let b = s.take(n + 1);
    if has_key(b, k) {
        let j = choose|j: int| 0 <= j < b.len() && #[trigger] b[j].0 == k;
        if j < n {
            assert(a[j].0 == k);
        }
    }
    if has_key(a, k) {
        let j = choose|j: int| 0 <= j < a.len() && #[trigger] a[j].0 == k;
        assert(b[j].0 == k);
    }
    if s[n].0 == k {
        assert(b[n].0 == k);
    }
}

/// Whether one of the first `n` entries of `s` has the key `k` and is `bad`.
pub open spec fn marked<K, V>(s: Seq<(K, V)>, n: int, bad: spec_fn(K, V) -> bool, k: K) -> bool {
    exists|j: int| 0 <= j < n && j < s.len() && #[trigger] s[j].0 == k && bad(k, s[j].1)
}

/// What the entry after the first `n` adds to what is marked.
pub proof fn lemma_marked_next<K, V>(s: Seq<(K, V)>, n: int, bad: spec_fn(K, V) -> bool, k: K)
    requires
        0 <= n < s.len(),
    ensures
        marked(s, n + 1, bad, k) == (marked(s, n, bad, k) || (s[n].0 == k && bad(k, s[n].1))),
{
    if marked(s, n + 1, bad, k) {
        let j = choose|j: int| 0 <= j < n + 1 && j < s.len() && #[trigger] s[j].0 == k && bad(k, s[j].1);
        if j < n {
            assert(marked(s, n, bad, k));
        }
    }
    if marked(s, n, bad, k) {
        let j = choose|j: int| 0 <= j < n && j < s.len() && #[trigger] s[j].0 == k && bad(k, s[j].1);
        assert(s[j].0 == k);
    }
    if s[n].0 == k && bad(k, s[n].1) {
        assert(s[n].0 == k);
    }
}

/// In a duplicate-free list a key is marked where the map binds it to
/// something bad.
pub proof fn lemma_marked_all<K, V>(s: Seq<(K, V)>, bad: spec_fn(K, V) -> bool, k: K)
    requires
        firsts(s).no_duplicates(),
    ensures
        marked(s, s.len() as int, bad, k) == (as_map(s).contains_key(k) && bad(k, as_map(s)[k])),
{
    if marked(s, s.len() as int, bad, k) {
        let j = choose|j: int|
            0 <= j < s.len() && j < s.len() && #[trigger] s[j].0 == k && bad(k, s[j].1);
        lemma_distinct_at(s, j);
    }
    if as_map(s).contains_key(k) && bad(k, as_map(s)[k]) {
        lemma_first_at(s, k);
        let j = first_at(s, k);
        assert(s[j].0 == k);
    }
}

/// `first_at` is well defined on every key that occurs.
pub proof fn lemma_first_at<K, V>(s: Seq<(K, V)>, k: K)
    requires
        has_key(s, k),
    ensures
        0 <= first_at(s, k) < s.len(),
        s[first_at(s, k)].0 == k,
        forall|j: int| 0 <= j < first_at(s, k) ==> #[trigger] s[j].0 != k,
    decreases s.len(),
{
    let i = choose|i: int| 0 <= i < s.len() && #[trigger] s[i].0 == k;
    lemma_least(s, k, i);
}

proof fn lemma_least<K, V>(s: Seq<(K, V)>, k: K, i: int)
    requires
        0 <= i < s.len(),
        s[i].0 == k,
    ensures
        exists|m: int|
            0 <= m < s.len() && #[trigger] s[m].0 == k && forall|j: int|
                0 <= j < m ==> #[trigger] s[j].0 != k,
    decreases i,
{
    if exists|j: int| 0 <= j < i && #[trigger] s[j].0 == k {
        let j = choose|j: int| 0 <= j < i && #[trigger] s[j].0 == k;
        lemma_least(s, k, j);
    } else {
        assert(forall|j: int| 0 <= j < i ==> #[trigger] s[j].0 != k);
    }
}

/// An entry found with no equal key before it is the one the map shows.
pub proof fn lemma_as_map_at<K, V>(s: Seq<(K, V)>, i: int)
    requires
        0 <= i < s.len(),
        forall|j: int| 0 <= j < i ==> #[trigger] s[j].0 != s[i].0,
    ensures
        as_map(s).contains_key(s[i].0),
        as_map(s)[s[i].0] == s[i].1,
        first_at(s, s[i].0) == i,
{
    let k = s[i].0;
    assert(has_key(s, k));
    lemma_first_at(s, k);
    let f = first_at(s, k);
    if f < i {
        assert(s[f].0 != s[i].0);
    } else if i < f {
        assert(s[i].0 != k);
    }
}

/// Without duplicates every entry is the first for its key.
pub proof fn lemma_distinct_at<K, V>(s: Seq<(K, V)>, i: int)
    requires
        firsts(s).no_duplicates(),
        0 <= i < s.len(),
    ensures
        as_map(s).contains_key(s[i].0),
        as_map(s)[s[i].0] == s[i].1,
        first_at(s, s[i].0) == i,
{
    assert forall|j: int| 0 <= j < i implies #[trigger] s[j].0 != s[i].0 by {
        assert(firsts(s)[j] != firsts(s)[i]);
    }
    lemma_as_map_at(s, i);
}

/// Replacing the value of an entry.
pub proof fn lemma_as_map_update<K, V>(s: Seq<(K, V)>, i: int, v: V)
    requires
        firsts(s).no_duplicates(),
        0 <= i < s.len(),
    ensures
        firsts(s.update(i, (s[i].0, v))) == firsts(s),
        as_map(s.update(i, (s[i].0, v))) == as_map(s).insert(s[i].0, v),
{
    let key = s[i].0;
    let t = s.update(i, (key, v));
    assert(firsts(t) =~= firsts(s));
    assert forall|k: K| #[trigger] has_key(t, k) == (k == key || has_key(s, k)) by {
        if has_key(t, k) {
            let j = choose|j: int| 0 <= j < t.len() && #[trigger] t[j].0 == k;
            assert(s[j].0 == k);
        }
        if has_key(s, k) {
            let j = choose|j: int| 0 <= j < s.len() && #[trigger] s[j].0 == k;
            assert(t[j].0 == k);
        }
        if k == key {
            assert(t[i].0 == k);
        }
    }
    assert forall|k: K| has_key(t, k) implies #[trigger] as_map(t)[k] == as_map(s).insert(
        key,
        v,
    )[k] by {
        lemma_first_at(t, k);
        let j = first_at(t, k);
        lemma_distinct_at(t, j);
        if k != key {
            assert(s[j].0 == k);
            lemma_distinct_at(s, j);
        } else {
            assert(firsts(t)[j] == firsts(t)[i]);
        }
    }
    assert(as_map(t) =~= as_map(s).insert(key, v));
}

/// Appending an entry with a fresh key.
pub proof fn lemma_as_map_push<K, V>(s: Seq<(K, V)>, key: K, v: V)
    requires
        firsts(s).no_duplicates(),
        !has_key(s, key),
    ensures
        firsts(s.push((key, v))).no_duplicates(),
        as_map(s.push((key, v))) == as_map(s).insert(key, v),
{
    let t = s.push((key, v));
    assert forall|a: int, b: int|
        0 <= a < t.len() && 0 <= b < t.len() && a != b implies firsts(t)[a] != firsts(t)[b] by {
        if a < s.len() && b < s.len() {
            assert(firsts(s)[a] != firsts(s)[b]);
        } else if a < s.len() {
            assert(s[a].0 != key);
        } else {
            assert(s[b].0 != key);
        }
    }
    assert forall|k: K| #[trigger] has_key(t, k) == (k == key || has_key(s, k)) by {
        if has_key(t, k) {
            let j = choose|j: int| 0 <= j < t.len() && #[trigger] t[j].0 == k;
            if j < s.len() {
                assert(s[j].0 == k);
            }
        }
        if has_key(s, k) {
            let j = choose|j: int| 0 <= j < s.len() && #[trigger] s[j].0 == k;
            assert(t[j].0 == k);
        }
        if k == key {
            assert(t[s.len() as int].0 == k);
        }
    }
    assert forall|k: K| has_key(t, k) implies #[trigger] as_map(t)[k] == as_map(s).insert(
        key,
        v,
    )[k] by {
        lemma_first_at(t, k);
        let j = first_at(t, k);
        lemma_distinct_at(t, j);
        if j < s.len() {
            assert(s[j].0 == k);
            lemma_distinct_at(s, j);
        }
    }
    assert(as_map(t) =~= as_map(s).insert(key, v));
}

/// Dropping an entry.
pub proof fn lemma_as_map_remove<K, V>(s: Seq<(K, V)>, i: int)
    requires
        firsts(s).no_duplicates(),
        0 <= i < s.len(),
    ensures
        firsts(s.remove(i)).no_duplicates(),
        as_map(s.remove(i)) == as_map(s).remove(s[i].0),
{
    let key = s[i].0;
    let t = s.remove(i);
    assert forall|a: int, b: int|
        0 <= a < t.len() && 0 <= b < t.len() && a != b implies firsts(t)[a] != firsts(t)[b] by {
        let a2 = if a < i { a } else { a + 1 };
        let b2 = if b < i { b } else { b + 1 };
        assert(firsts(s)[a2] != firsts(s)[b2]);
    }
    assert forall|k: K| #[trigger] has_key(t, k) == (k != key && has_key(s, k)) by {
        lemma_remove_keys(s, i, k);
    }
    assert forall|k: K| has_key(t, k) implies #[trigger] as_map(t)[k] == as_map(s).remove(
        key,
    )[k] by {
        lemma_first_at(t, k);
        let j = first_at(t, k);
        lemma_distinct_at(t, j);
        let j2 = if j < i { j } else { j + 1 };
        assert(s[j2].0 == k);
        lemma_distinct_at(s, j2);
    }
    assert(as_map(t) =~= as_map(s).remove(key));
}

proof fn lemma_remove_keys<K, V>(s: Seq<(K, V)>, i: int, k: K)
    requires
        firsts(s).no_duplicates(),
        0 <= i < s.len(),
    ensures
        has_key(s.remove(i), k) == (k != s[i].0 && has_key(s, k)),
{
    let t = s.remove(i);
    if has_key(t, k) {
        let j = choose|j: int| 0 <= j < t.len() && #[trigger] t[j].0 == k;
        let j2 = if j < i { j } else { j + 1 };
        assert(s[j2].0 == k);
        assert(firsts(s)[j2] != firsts(s)[i]);
    }
    if k != s[i].0 && has_key(s, k) {
        let j = choose|j: int| 0 <= j < s.len() && #[trigger] s[j].0 == k;
        let j2 = if j < i { j } else { j - 1 };
        assert(t[j2].0 == k);
    }
}

/// The position of the first entry of `entries` with the key `key`.
pub fn find_key<K: Key, V>(entries: &Vec<(K, V)>, key: &K) -> (r: Option<usize>)
    ensures
        r is Some == has_key(entries@, *key),
        r matches Some(i) ==> i == first_at(entries@, *key) && i < entries.len() && entries[i as int].0
            == *key,
{
    let mut i: usize = 0;
    while i < entries.len()
        invariant
            i <= entries.len(),
            forall|j: int| 0 <= j < i ==> #[trigger] entries@[j].0 != *key,
        decreases entries.len() - i,
    {
        if entries[i].0.same(key) {
            proof {
                lemma_as_map_at(entries@, i as int);
            }
            return Some(i);
        }
        i += 1;
    }
    None
}

/// Binds `key` to `value` in a plain association list.
pub fn upsert_entry<K: Key, V>(entries: &mut Vec<(K, V)>, key: K, value: V)
    ensures
        final(entries)@ == upsert(old(entries)@, key, value),
{
    match find_key(entries, &key) {
        Some(i) => {
            entries.set(i, (key, value));
        },
        None => {
            entries.push((key, value));
        },
    }
}

/// A finite map kept as a duplicate-free association list in insertion order.
pub struct KeyMap<K: Key, V> {
    entries: Vec<(K, V)>,
}

impl<K: Key, V> KeyMap<K, V> {
    #[verifier::type_invariant]
    spec fn inv(self) -> bool {
        firsts(self.entries@).no_duplicates()
    }

    /// The entries in insertion order.
    pub closed spec fn entries(&self) -> Seq<(K, V)> {
        self.entries@
    }

    /// The map denoted.
    pub open spec fn view(&self) -> Map<K, V> {
        as_map(self.entries())
    }

    pub fn new() -> (m: Self)
        ensures
            m.entries() == Seq::<(K, V)>::empty(),
            m@ == Map::<K, V>::empty(),
    {
        let m = KeyMap { entries: Vec::new() };
        assert(m@ =~= Map::<K, V>::empty());
        m
    }

    pub fn len(&self) -> (n: usize)
        ensures
            n == self.entries().len(),
            firsts(self.entries()).no_duplicates(),
    {
        proof {
            use_type_invariant(self);
        }
        self.entries.len()
    }

    pub fn contains_key(&self, key: &K) -> (r: bool)
        ensures
            r == self@.contains_key(*key),
    {
        find_key(&self.entries, key).is_some()
    }

    pub fn get(&self, key: &K) -> (r: Option<&V>)
        ensures
            r is Some == self@.contains_key(*key),
            r matches Some(v) ==> *v == self@[*key],
    {
        match find_key(&self.entries, key) {
            Some(i) => Some(&self.entries[i].1),
            None => None,
        }
    }

    /// The key of the `i`-th entry.
    pub fn key_at(&self, i: usize) -> (k: K)
        requires
            i < self.entries().len(),
        ensures
            k == self.entries()[i as int].0,
            self@.contains_key(k),
    {
        proof {
            use_type_invariant(self);
            lemma_distinct_at(self.entries@, i as int);
        }
        self.entries[i].0
    }

    /// The value of the `i`-th entry.
    pub fn value_at(&self, i: usize) -> (v: &V)
        requires
            i < self.entries().len(),
        ensures
            *v == self.entries()[i as int].1,
            self@.contains_key(self.entries()[i as int].0),
            self@[self.entries()[i as int].0] == *v,
    {
        proof {
            use_type_invariant(self);
            lemma_distinct_at(self.entries@, i as int);
        }
        &self.entries[i].1
    }

    /// A copy of the entries in insertion order.
    pub fn to_vec(&self) -> (r: Vec<(K, V)>)
        where V: Copy
        ensures
            r@ == self.entries(),
    {
        let mut r: Vec<(K, V)> = Vec::new();
        let mut i: usize = 0;
        while i < self.entries.len()
            invariant
                i <= self.entries.len(),
                r@ == self.entries@.take(i as int),
            decreases self.entries.len() - i,
        {
            r.push((self.entries[i].0, self.entries[i].1));
            assert(self.entries@.take(i + 1) =~= self.entries@.take(i as int).push(
                self.entries@[i as int],
            ));
            i += 1;
        }
        assert(self.entries@.take(self.entries@.len() as int) =~= self.entries@);
        r
    }

    /// Binds `key` to `value`. A key bound before keeps its place; a new one
    /// goes to the end.
    pub fn insert(&mut self, key: K, value: V)
        ensures
            final(self)@ == old(self)@.insert(key, value),
            final(self).entries() == upsert(old(self).entries(), key, value),
    {
        proof {
            use_type_invariant(&*self);
        }
        let found = find_key(&self.entries, &key);
        let ghost before = self.entries@;
        let mut entries: Vec<(K, V)> = Vec::new();
        core::mem::swap(&mut self.entries, &mut entries);
        match found {
            Some(i) => {
                entries.set(i, (key, value));
                proof {
                    lemma_as_map_update(before, i as int, value);
                }
            },
            None => {
                entries.push((key, value));
                proof {
                    lemma_as_map_push(before, key, value);
                }
            },
        }
        self.entries = entries;
    }

    /// Unbinds every key that `keys` lists.
    pub fn remove_keys(&mut self, keys: &Vec<K>)
        ensures
            final(self)@ == old(self)@.remove_keys(keys@.to_set()),
    {
        let ghost before = self@;
        let mut i: usize = 0;
        assert(self@ =~= before.remove_keys(keys@.take(0).to_set()));
        while i < keys.len()
            invariant
                i <= keys.len(),
                self@ == before.remove_keys(keys@.take(i as int).to_set()),
            decreases keys.len() - i,
        {
            let ghost done = keys@.take(i as int);
            let ghost next = keys@.take(i + 1);
            proof {
                assert(next =~= done.push(keys@[i as int]));
                assert forall|x: K| next.contains(x) == (done.contains(x) || x == keys@[i as int]) by {
                    if done.contains(x) {
                        let j = choose|j: int| 0 <= j < done.len() && done[j] == x;
                        assert(next[j] == x);
                    }
                    if x == keys@[i as int] {
                        assert(next[i as int] == x);
                    }
                }
            }
            self.remove(&keys[i]);
            assert(self@ =~= before.remove_keys(next.to_set()));
            i += 1;
        }
        assert(keys@.take(keys@.len() as int) =~= keys@);
    }

    /// Unbinds `key` and hands back what it was bound to.
    pub fn remove(&mut self, key: &K) -> (r: Option<V>)
        ensures
            final(self)@ == old(self)@.remove(*key),
            r is Some == old(self)@.contains_key(*key),
            r matches Some(v) ==> v == old(self)@[*key],
            final(self).entries().len() <= old(self).entries().len(),
    {
        proof {
            use_type_invariant(&*self);
        }
        match find_key(&self.entries, key) {
            Some(i) => {
                let ghost before = self.entries@;
                let mut entries: Vec<(K, V)> = Vec::new();
                core::mem::swap(&mut self.entries, &mut entries);
                let gone = entries.remove(i);
                proof {
                    lemma_as_map_remove(before, i as int);
                }
                self.entries = entries;
                Some(gone.1)
            },
            None => {
                assert(self@ =~= old(self)@.remove(*key));
                None
            },
        }
    }
}

/// A finite set kept as a duplicate-free list in insertion order.
pub struct KeySet<K: Key> {
    items: Vec<K>,
}

/// The position of the first occurrence of `key` in `items`.
pub fn find_item<K: Key>(items: &Vec<K>, key: &K) -> (r: Option<usize>)
    ensures
        r is Some == items@.contains(*key),
        r matches Some(i) ==> i < items.len() && items[i as int] == *key,
{
    let mut i: usize = 0;
    while i < items.len()
        invariant
            i <= items.len(),
            forall|j: int| 0 <= j < i ==> items@[j] != *key,
        decreases items.len() - i,
    {
        if items[i].same(key) {
            return Some(i);
        }
        i += 1;
    }
    None
}

impl<K: Key> KeySet<K> {
    #[verifier::type_invariant]
    spec fn inv(self) -> bool {
        self.items@.no_duplicates()
    }

    /// The members in insertion order.
    pub closed spec fn items(&self) -> Seq<K> {
        self.items@
    }

    /// The set denoted.
    pub open spec fn view(&self) -> Set<K> {
        self.items().to_set()
    }

    pub fn new() -> (s: Self)
        ensures
            s.items() == Seq::<K>::empty(),
            s@ == Set::<K>::empty(),
    {
        let s = KeySet { items: Vec::new() };
        assert(s@ =~= Set::<K>::empty());
        s
    }

    pub fn len(&self) -> (n: usize)
        ensures
            n == self.items().len(),
            n == self@.len(),
            self.items().no_duplicates(),
    {
        proof {
            use_type_invariant(self);
            self.items@.unique_seq_to_set();
        }
        self.items.len()
    }

    pub fn contains(&self, key: &K) -> (r: bool)
        ensures
            r == self@.contains(*key),
    {
        find_item(&self.items, key).is_some()
    }

    /// The `i`-th member.
    pub fn item_at(&self, i: usize) -> (k: K)
        requires
            i < self.items().len(),
        ensures
            k == self.items()[i as int],
            self@.contains(k),
    {
        self.items[i]
    }

    /// Adds `key`; tells whether it was new.
    pub fn insert(&mut self, key: K) -> (fresh: bool)
        ensures
            fresh == !old(self)@.contains(key),
            final(self)@ == old(self)@.insert(key),
            fresh ==> final(self).items() == old(self).items().push(key),
            !fresh ==> final(self).items() == old(self).items(),
    {
        proof {
            use_type_invariant(&*self);
        }
        if find_item(&self.items, &key).is_some() {
            assert(self@ =~= old(self)@.insert(key));
            false
        } else {
            let ghost before = self.items@;
            let mut items: Vec<K> = Vec::new();
            core::mem::swap(&mut self.items, &mut items);
            items.push(key);
            assert(items@.to_set() =~= before.to_set().insert(key)) by {
                assert forall|k: K| items@.contains(k) == (k == key || before.contains(k)) by {
                    if items@.contains(k) {
                        let j = choose|j: int| 0 <= j < items@.len() && items@[j] == k;
                        if j < before.len() {
                            assert(before[j] == k);
                        }
                    }
                    if before.contains(k) {
                        let j = choose|j: int| 0 <= j < before.len() && before[j] == k;
                        assert(items@[j] == k);
                    }
                    if k == key {
                        assert(items@[before.len() as int] == k);
                    }
                }
            }
            self.items = items;
            true
        }
    }

    /// The members of `floor` or later.
    pub fn from_date(&self, floor: u64) -> (kept: Self)
        where K: Dated
        ensures
            kept@ == self@.filter(|k: K| k.date() >= floor),
    {
        proof {
            use_type_invariant(self);
        }
        let mut kept: KeySet<K> = KeySet::new();
        let n = self.items.len();
        let mut i: usize = 0;
        while i < n
            invariant
                i <= n,
                n == self.items@.len(),
                forall|k: K|
                    kept@.contains(k) <==> (self.items@.take(i as int).contains(k) && k.date()
                        >= floor),
            decreases n - i,
        {
            let k = self.items[i];
            let ghost before = self.items@.take(i as int);
            let ghost after = self.items@.take(i + 1);
            proof {
                assert(after =~= before.push(k));
                assert forall|x: K| after.contains(x) == (before.contains(x) || x == k) by {
                    if before.contains(x) {
                        let j = choose|j: int| 0 <= j < before.len() && before[j] == x;
                        assert(after[j] == x);
                    }
                    if x == k {
                        assert(after[i as int] == x);
                    }
                }
            }
            if k.dated() >= floor {
                kept.insert(k);
            }
            i += 1;
        }
        proof {
            assert(self.items@.take(n as int) =~= self.items@);
            assert(kept@ =~= self@.filter(|k: K| k.date() >= floor));
        }
        kept
    }

    /// Takes out every member that `keys` lists; the others keep their
    /// order.
    pub fn remove_all(&mut self, keys: &Vec<K>)
        ensures
            final(self).items() == old(self).items().filter(|k: K| !keys@.contains(k)),
    {
        proof {
            use_type_invariant(&*self);
        }
        let ghost items = self.items@;
        let ghost pred = |k: K| !keys@.contains(k);
        let mut kept: Vec<K> = Vec::new();
        let mut i: usize = 0;
        while i < self.items.len()
            invariant
                i <= self.items.len(),
                items == self.items@,
                items.no_duplicates(),
                pred == (|k: K| !keys@.contains(k)),
                kept@ == items.take(i as int).filter(pred),
                kept@.no_duplicates(),
                forall|j: int| 0 <= j < kept@.len() ==> items.take(i as int).contains(#[trigger] kept@[j]),
            decreases self.items.len() - i,
        {
            let k = self.items[i];
            proof {
                assert(items.take(i + 1).drop_last() =~= items.take(i as int));
                assert(items.take(i + 1).last() == k);
                reveal(Seq::filter);
            }
            let listed = find_item(keys, &k).is_some();
            let ghost before = kept@;
            if !listed {
                kept.push(k);
                proof {
                    assert forall|a: int, b: int|
                        0 <= a < kept@.len() && 0 <= b < kept@.len() && a != b implies kept@[a]
                        != kept@[b] by {
                        if a < before.len() && b < before.len() {
                        } else if a < before.len() {
                            let j = choose|j: int|
                                0 <= j < items.take(i as int).len() && items.take(i as int)[j]
                                    == before[a];
                            assert(items[j] != items[i as int]);
                        } else {
                            let j = choose|j: int|
                                0 <= j < items.take(i as int).len() && items.take(i as int)[j]
                                    == before[b];
                            assert(items[j] != items[i as int]);
                        }
                    }
                }
            }
            proof {
                assert forall|j: int| 0 <= j < kept@.len() implies items.take(i + 1).contains(
                    #[trigger] kept@[j],
                ) by {
                    if j < before.len() {
                        let m = choose|m: int|
                            0 <= m < items.take(i as int).len() && items.take(i as int)[m]
                                == before[j];
                        assert(items.take(i + 1)[m] == kept@[j]);
                    } else {
                        assert(items.take(i + 1)[i as int] == kept@[j]);
                    }
                }
            }
            i += 1;
        }
        proof {
            assert(items.take(items.len() as int) =~= items);
        }
        self.items = kept;
    }

    /// Takes `key` out; tells whether it was a member.
    pub fn remove(&mut self, key: &K) -> (was: bool)
        ensures
            was == old(self)@.contains(*key),
            final(self)@ == old(self)@.remove(*key),
            was ==> final(self).items().len() + 1 == old(self).items().len(),
            !was ==> final(self).items() == old(self).items(),
    {
        proof {
            use_type_invariant(&*self);
        }
        match find_item(&self.items, key) {
            Some(i) => {
                let ghost before = self.items@;
                let mut items: Vec<K> = Vec::new();
                core::mem::swap(&mut self.items, &mut items);
                items.remove(i);
                proof {
                    let after = items@;
                    assert forall|a: int, b: int|
                        0 <= a < after.len() && 0 <= b < after.len() && a != b implies after[a]
                        != after[b] by {
                        let a2 = if a < i { a } else { a + 1 };
                        let b2 = if b < i { b } else { b + 1 };
                        assert(before[a2] != before[b2]);
                    }
                    assert forall|k: K| after.contains(k) == (k != *key && before.contains(k)) by {
                        if after.contains(k) {
                            let j = choose|j: int| 0 <= j < after.len() && after[j] == k;
                            let j2 = if j < i { j } else { j + 1 };
                            assert(before[j2] == k);
                            assert(before[j2] != before[i as int]);
                        }
                        if k != *key && before.contains(k) {
                            let j = choose|j: int| 0 <= j < before.len() && before[j] == k;
                            let j2 = if j < i { j } else { j - 1 };
                            assert(after[j2] == k);
                        }
                    }
                    assert(after.to_set() =~= before.to_set().remove(*key));
                }
                self.items = items;
                true
            },
            None => {
                assert(self@ =~= old(self)@.remove(*key));
                false
            },
        }
    }
}

} // verus!
