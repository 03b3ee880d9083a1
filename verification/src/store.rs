//! A keyed store: the storage map of a pallet, held as a list of entries with
//! distinct keys and viewed as a finite map.

use vstd::prelude::*;

verus! {

/// Entries with pairwise distinct keys.
pub open spec fn keys_distinct<V>(s: Seq<(u64, V)>) -> bool {
    forall|i: int, j: int| 0 <= i < s.len() && 0 <= j < s.len() && i != j ==> s[i].0 != s[j].0
}

/// Whether some entry has key `k`.
pub open spec fn has_key<V>(s: Seq<(u64, V)>, k: u64) -> bool {
    exists|i: int| 0 <= i < s.len() && s[i].0 == k
}

/// The finite map that a list of entries stands for.
pub open spec fn entries_map<V>(s: Seq<(u64, V)>) -> Map<u64, V> {
    Map::new(
        |k: u64| has_key(s, k),
        |k: u64| s[choose|i: int| 0 <= i < s.len() && s[i].0 == k].1,
    )
}

/// In a list with distinct keys, the map holds each entry's value under its key.
pub proof fn lemma_entry_value<V>(s: Seq<(u64, V)>, i: int)
    requires
        keys_distinct(s),
        0 <= i < s.len(),
    ensures
        entries_map(s).dom().contains(s[i].0),
        entries_map(s)[s[i].0] == s[i].1,
{
    assert(has_key(s, s[i].0));
    let c = choose|j: int| 0 <= j < s.len() && s[j].0 == s[i].0;
    assert(c == i);
}

/// Taking one more entry of a list with distinct keys adds that entry to the map.
pub proof fn lemma_entries_map_take<V>(s: Seq<(u64, V)>, i: int)
    requires
        keys_distinct(s),
        0 <= i < s.len(),
    ensures
        entries_map(s.take(i + 1)) == entries_map(s.take(i)).insert(s[i].0, s[i].1),
{
    let a = s.take(i + 1);
    let b = s.take(i);
    let k = s[i].0;
    assert forall|key: u64| #[trigger] has_key(a, key) == (has_key(b, key) || key == k) by {
        if has_key(b, key) {
            let j = choose|j: int| 0 <= j < b.len() && b[j].0 == key;
            assert(a[j].0 == key);
        }
        if key == k {
            assert(a[i].0 == k);
        }
        if has_key(a, key) {
            let j = choose|j: int| 0 <= j < a.len() && a[j].0 == key;
            if j < i {
                assert(b[j].0 == key);
            }
        }
    }
    assert forall|key: u64| has_key(a, key) implies entries_map(a)[key] == entries_map(b).insert(k, s[i].1)[key] by {
        let c = choose|j: int| 0 <= j < a.len() && a[j].0 == key;
        if key == k {
            assert(a[i].0 == k);
            assert(c == i);
        } else {
            let c0 = choose|j: int| 0 <= j < b.len() && b[j].0 == key;
            assert(a[c0].0 == key);
            assert(c == c0);
        }
    }
    assert(entries_map(a) =~= entries_map(b).insert(k, s[i].1));
}

/// A storage map from `u64` keys to values.
pub struct Store<V> {
    pub entries: Vec<(u64, V)>,
}

impl<V> Store<V> {
    /// The map held.
    pub open spec fn view_map(&self) -> Map<u64, V> {
        entries_map(self.entries@)
    }

    /// Distinct keys.
    pub open spec fn wf(&self) -> bool {
        keys_distinct(self.entries@)
    }

    /// An empty store.
    pub fn new() -> (r: Self)
        ensures
            r.wf(),
            r.view_map() == Map::<u64, V>::empty(),
            r.entries@.len() == 0,
    {
        let r = Store { entries: Vec::new() };
        assert(r.view_map() =~= Map::<u64, V>::empty());
        r
    }

    /// The number of entries.
    pub fn len(&self) -> (r: usize)
        ensures
            r == self.entries@.len(),
    {
        self.entries.len()
    }

    /// The index of the entry with key `k`, if any.
    pub fn find(&self, k: u64) -> (r: Option<usize>)
        requires
            self.wf(),
        ensures
            r matches Some(i) ==> i < self.entries@.len() && self.entries@[i as int].0 == k
                && self.view_map().dom().contains(k)
                && self.view_map()[k] == self.entries@[i as int].1,
            r is None ==> !self.view_map().dom().contains(k),
    {
        let mut i: usize = 0;
        while i < self.entries.len()
            invariant
                i <= self.entries@.len(),
                self.wf(),
                forall|j: int| 0 <= j < i ==> self.entries@[j].0 != k,
            decreases self.entries@.len() - i,
        {
            if self.entries[i].0 == k {
                proof {
                    let s = self.entries@;
                    assert(has_key(s, k));
                    let c = choose|j: int| 0 <= j < s.len() && s[j].0 == k;
                    assert(c == i as int);
                }
                return Some(i);
            }
            i = i + 1;
        }
        None
    }

    /// Set the value of key `k`.
    pub fn insert(&mut self, k: u64, v: V)
        requires
            old(self).wf(),
        ensures
            final(self).wf(),
            final(self).view_map() == old(self).view_map().insert(k, v),
            has_key(old(self).entries@, k) ==> exists|i: int| 0 <= i < old(self).entries@.len()
                && old(self).entries@[i].0 == k && final(self).entries@ == old(self).entries@.update(i, (k, v)),
            !has_key(old(self).entries@, k) ==> final(self).entries@ == old(self).entries@.push((k, v)),
    {
        let ghost s0 = self.entries@;
        match self.find(k) {
            Some(i) => {
                self.entries.set(i, (k, v));
                proof {
                    assert(self.entries@ == s0.update(i as int, (k, v)));
                    let s = self.entries@;
                    assert(s == s0.update(i as int, (k, v)));
                    assert forall|a: int, b: int| 0 <= a < s.len() && 0 <= b < s.len() && a != b implies s[a].0 != s[b].0 by {
                        assert(s0[a].0 == s[a].0 && s0[b].0 == s[b].0);
                    }
                    assert forall|key: u64| #[trigger] has_key(s, key) == has_key(s0, key) by {
                        if has_key(s0, key) {
                            let j = choose|j: int| 0 <= j < s0.len() && s0[j].0 == key;
                            assert(s[j].0 == key);
                        }
                        if has_key(s, key) {
                            let j = choose|j: int| 0 <= j < s.len() && s[j].0 == key;
                            assert(s0[j].0 == key);
                        }
                    }
                    assert forall|key: u64| has_key(s, key) implies
                        entries_map(s)[key] == old(self).view_map().insert(k, v)[key] by {
                        let c = choose|j: int| 0 <= j < s.len() && s[j].0 == key;
                        if key == k {
                            assert(c == i as int);
                        } else {
                            let c0 = choose|j: int| 0 <= j < s0.len() && s0[j].0 == key;
                            assert(s[c0].0 == key);
                            assert(c == c0);
                        }
                    }
                    assert(entries_map(s) =~= entries_map(s0).insert(k, v));
                }
            },
            None => {
                proof {
                    if has_key(s0, k) {
                        let j = choose|j: int| 0 <= j < s0.len() && s0[j].0 == k;
                        assert(entries_map(s0).dom().contains(k));
                    }
                }
                self.entries.push((k, v));
                proof {
                    let s = self.entries@;
                    assert(s == s0.push((k, v)));
                    assert(!has_key(s0, k));
                    assert forall|a: int, b: int| 0 <= a < s.len() && 0 <= b < s.len() && a != b implies s[a].0 != s[b].0 by {
                        if a < s0.len() && b < s0.len() {
                            assert(s0[a].0 == s[a].0 && s0[b].0 == s[b].0);
                        } else if a < s0.len() {
                            assert(s0[a].0 == s[a].0);
                        } else {
                            assert(s0[b].0 == s[b].0);
                        }
                    }
                    assert forall|key: u64| #[trigger] has_key(s, key) == (has_key(s0, key) || key == k) by {
                        if has_key(s0, key) {
                            let j = choose|j: int| 0 <= j < s0.len() && s0[j].0 == key;
                            assert(s[j].0 == key);
                        }
                        if key == k {
                            assert(s[s0.len() as int].0 == k);
                        }
                        if has_key(s, key) {
                            let j = choose|j: int| 0 <= j < s.len() && s[j].0 == key;
                            if j < s0.len() {
                                assert(s0[j].0 == key);
                            }
                        }
                    }
                    assert forall|key: u64| has_key(s, key) implies
                        entries_map(s)[key] == old(self).view_map().insert(k, v)[key] by {
                        let c = choose|j: int| 0 <= j < s.len() && s[j].0 == key;
                        if key == k {
                            assert(s[s0.len() as int].0 == k);
                            assert(c == s0.len() as int);
                        } else {
                            let c0 = choose|j: int| 0 <= j < s0.len() && s0[j].0 == key;
                            assert(s[c0].0 == key);
                            assert(c == c0);
                        }
                    }
                    assert(entries_map(s) =~= entries_map(s0).insert(k, v));
                }
            },
        }
    }

    /// Remove key `k`.
    pub fn remove(&mut self, k: u64)
        requires
            old(self).wf(),
        ensures
            final(self).wf(),
            final(self).view_map() == old(self).view_map().remove(k),
            has_key(old(self).entries@, k) ==> exists|i: int| 0 <= i < old(self).entries@.len()
                && old(self).entries@[i].0 == k && final(self).entries@ == old(self).entries@.remove(i),
            !has_key(old(self).entries@, k) ==> final(self).entries@ == old(self).entries@,
    {
        let ghost s0 = self.entries@;
        match self.find(k) {
            Some(i) => {
                let _ = self.entries.remove(i);
                proof {
                    assert(self.entries@ == s0.remove(i as int));
                    let s = self.entries@;
                    assert(s == s0.remove(i as int));
                    assert forall|a: int| 0 <= a < s.len() implies #[trigger] s[a] == (if a < i { s0[a] } else { s0[a + 1] }) by {}
                    assert forall|a: int, b: int| 0 <= a < s.len() && 0 <= b < s.len() && a != b implies s[a].0 != s[b].0 by {
                        let a0 = if a < i { a } else { a + 1 };
                        let b0 = if b < i { b } else { b + 1 };
                        assert(s[a] == s0[a0] && s[b] == s0[b0]);
                    }
                    assert forall|key: u64| #[trigger] has_key(s, key) == (has_key(s0, key) && key != k) by {
                        if has_key(s0, key) && key != k {
                            let j = choose|j: int| 0 <= j < s0.len() && s0[j].0 == key;
                            assert(j != i as int);
                            let j2 = if j < i { j } else { j - 1 };
                            assert(s[j2] == s0[j]);
                        }
                        if has_key(s, key) {
                            let j = choose|j: int| 0 <= j < s.len() && s[j].0 == key;
                            let j0 = if j < i { j } else { j + 1 };
                            assert(s[j] == s0[j0]);
                            assert(j0 != i as int);
                        }
                    }
                    assert forall|key: u64| has_key(s, key) implies
                        entries_map(s)[key] == old(self).view_map().remove(k)[key] by {
                        let c = choose|j: int| 0 <= j < s.len() && s[j].0 == key;
                        let c0 = if c < i { c } else { c + 1 };
                        assert(s[c] == s0[c0]);
                        let d = choose|j: int| 0 <= j < s0.len() && s0[j].0 == key;
                        assert(d == c0);
                    }
                    assert(entries_map(s) =~= entries_map(s0).remove(k));
                }
            },
            None => {
                proof {
                    if has_key(s0, k) {
                        assert(entries_map(s0).dom().contains(k));
                    }
                }
                assert(self.view_map() =~= old(self).view_map().remove(k));
            },
        }
    }
}

impl<V: Copy> Store<V> {
    /// The value of key `k`, if present.
    pub fn get(&self, k: u64) -> (r: Option<V>)
        requires
            self.wf(),
        ensures
            r == (if self.view_map().dom().contains(k) { Some(self.view_map()[k]) } else { None::<V> }),
    {
        match self.find(k) {
            Some(i) => Some(self.entries[i].1),
            None => None,
        }
    }
}

/// Entries with pairwise distinct keys.
pub open spec fn keys_distinct_wide<V>(s: Seq<(u128, V)>) -> bool {
    forall|i: int, j: int| 0 <= i < s.len() && 0 <= j < s.len() && i != j ==> s[i].0 != s[j].0
}

/// Whether some entry has key `k`.
pub open spec fn has_key_wide<V>(s: Seq<(u128, V)>, k: u128) -> bool {
    exists|i: int| 0 <= i < s.len() && s[i].0 == k
}

/// The finite map that a list of entries stands for.
pub open spec fn entries_map_wide<V>(s: Seq<(u128, V)>) -> Map<u128, V> {
    Map::new(
        |k: u128| has_key_wide(s, k),
        |k: u128| s[choose|i: int| 0 <= i < s.len() && s[i].0 == k].1,
    )
}

/// The entries after key `k` is set to `v`: in place where `k` has an entry, appended
/// otherwise.
pub open spec fn wide_set<V>(s: Seq<(u128, V)>, k: u128, v: V) -> Seq<(u128, V)> {
    if has_key_wide(s, k) {
        s.update(choose|i: int| 0 <= i < s.len() && s[i].0 == k, (k, v))
    } else {
        s.push((k, v))
    }
}

/// A storage map from `u128` keys (fixed-point rates) to values.
pub struct WideStore<V> {
    pub entries: Vec<(u128, V)>,
}

impl<V> WideStore<V> {
    /// The map held.
    pub open spec fn view_map(&self) -> Map<u128, V> {
        entries_map_wide(self.entries@)
    }

    /// Distinct keys.
    pub open spec fn wf(&self) -> bool {
        keys_distinct_wide(self.entries@)
    }

    /// An empty store.
    pub fn new() -> (r: Self)
        ensures
            r.wf(),
            r.view_map() == Map::<u128, V>::empty(),
            r.entries@.len() == 0,
    {
        let r = WideStore { entries: Vec::new() };
        assert(r.view_map() =~= Map::<u128, V>::empty());
        r
    }

    /// The number of entries.
    pub fn len(&self) -> (r: usize)
        ensures
            r == self.entries@.len(),
    {
        self.entries.len()
    }

    /// The index of the entry with key `k`, if any.
    pub fn find(&self, k: u128) -> (r: Option<usize>)
        requires
            self.wf(),
        ensures
            r matches Some(i) ==> i < self.entries@.len() && self.entries@[i as int].0 == k
                && self.view_map().dom().contains(k)
                && self.view_map()[k] == self.entries@[i as int].1,
            r is None ==> !self.view_map().dom().contains(k),
    {
        let mut i: usize = 0;
        while i < self.entries.len()
            invariant
                i <= self.entries@.len(),
                self.wf(),
                forall|j: int| 0 <= j < i ==> self.entries@[j].0 != k,
            decreases self.entries@.len() - i,
        {
            if self.entries[i].0 == k {
                proof {
                    let s = self.entries@;
                    assert(has_key_wide(s, k));
                    let c = choose|j: int| 0 <= j < s.len() && s[j].0 == k;
                    assert(c == i as int);
                }
                return Some(i);
            }
            i = i + 1;
        }
        None
    }

    /// Set the value of key `k`.
    pub fn insert(&mut self, k: u128, v: V)
        requires
            old(self).wf(),
        ensures
            final(self).wf(),
            final(self).view_map() == old(self).view_map().insert(k, v),
            has_key_wide(old(self).entries@, k) ==> exists|i: int| 0 <= i < old(self).entries@.len()
                && old(self).entries@[i].0 == k && final(self).entries@ == old(self).entries@.update(i, (k, v)),
            !has_key_wide(old(self).entries@, k) ==> final(self).entries@ == old(self).entries@.push((k, v)),
            final(self).entries@ == wide_set(old(self).entries@, k, v),
    {
        let ghost s0 = self.entries@;
        match self.find(k) {
            Some(i) => {
                self.entries.set(i, (k, v));
                proof {
                    let ci = choose|j: int| 0 <= j < s0.len() && s0[j].0 == k;
                    assert(s0[i as int].0 == k);
                    assert(ci == i as int);
                    assert(self.entries@ == s0.update(i as int, (k, v)));
                    let s = self.entries@;
                    assert(s == s0.update(i as int, (k, v)));
                    assert forall|a: int, b: int| 0 <= a < s.len() && 0 <= b < s.len() && a != b implies s[a].0 != s[b].0 by {
                        assert(s0[a].0 == s[a].0 && s0[b].0 == s[b].0);
                    }
                    assert forall|key: u128| #[trigger] has_key_wide(s, key) == has_key_wide(s0, key) by {
                        if has_key_wide(s0, key) {
                            let j = choose|j: int| 0 <= j < s0.len() && s0[j].0 == key;
                            assert(s[j].0 == key);
                        }
                        if has_key_wide(s, key) {
                            let j = choose|j: int| 0 <= j < s.len() && s[j].0 == key;
                            assert(s0[j].0 == key);
                        }
                    }
                    assert forall|key: u128| has_key_wide(s, key) implies
                        entries_map_wide(s)[key] == old(self).view_map().insert(k, v)[key] by {
                        let c = choose|j: int| 0 <= j < s.len() && s[j].0 == key;
                        if key == k {
                            assert(c == i as int);
                        } else {
                            let c0 = choose|j: int| 0 <= j < s0.len() && s0[j].0 == key;
                            assert(s[c0].0 == key);
                            assert(c == c0);
                        }
                    }
                    assert(entries_map_wide(s) =~= entries_map_wide(s0).insert(k, v));
                }
            },
            None => {
                proof {
                    if has_key_wide(s0, k) {
                        let j = choose|j: int| 0 <= j < s0.len() && s0[j].0 == k;
                        assert(entries_map_wide(s0).dom().contains(k));
                    }
                }
                self.entries.push((k, v));
                proof {
                    let s = self.entries@;
                    assert(s == s0.push((k, v)));
                    assert(!has_key_wide(s0, k));
                    assert forall|a: int, b: int| 0 <= a < s.len() && 0 <= b < s.len() && a != b implies s[a].0 != s[b].0 by {
                        if a < s0.len() && b < s0.len() {
                            assert(s0[a].0 == s[a].0 && s0[b].0 == s[b].0);
                        } else if a < s0.len() {
                            assert(s0[a].0 == s[a].0);
                        } else {
                            assert(s0[b].0 == s[b].0);
                        }
                    }
                    assert forall|key: u128| #[trigger] has_key_wide(s, key) == (has_key_wide(s0, key) || key == k) by {
                        if has_key_wide(s0, key) {
                            let j = choose|j: int| 0 <= j < s0.len() && s0[j].0 == key;
                            assert(s[j].0 == key);
                        }
                        if key == k {
                            assert(s[s0.len() as int].0 == k);
                        }
                        if has_key_wide(s, key) {
                            let j = choose|j: int| 0 <= j < s.len() && s[j].0 == key;
                            if j < s0.len() {
                                assert(s0[j].0 == key);
                            }
                        }
                    }
                    assert forall|key: u128| has_key_wide(s, key) implies
                        entries_map_wide(s)[key] == old(self).view_map().insert(k, v)[key] by {
                        let c = choose|j: int| 0 <= j < s.len() && s[j].0 == key;
                        if key == k {
                            assert(s[s0.len() as int].0 == k);
                            assert(c == s0.len() as int);
                        } else {
                            let c0 = choose|j: int| 0 <= j < s0.len() && s0[j].0 == key;
                            assert(s[c0].0 == key);
                            assert(c == c0);
                        }
                    }
                    assert(entries_map_wide(s) =~= entries_map_wide(s0).insert(k, v));
                }
            },
        }
    }

    /// Remove key `k`.
    pub fn remove(&mut self, k: u128)
        requires
            old(self).wf(),
        ensures
            final(self).wf(),
            final(self).view_map() == old(self).view_map().remove(k),
            has_key_wide(old(self).entries@, k) ==> exists|i: int| 0 <= i < old(self).entries@.len()
                && old(self).entries@[i].0 == k && final(self).entries@ == old(self).entries@.remove(i),
            !has_key_wide(old(self).entries@, k) ==> final(self).entries@ == old(self).entries@,
    {
        let ghost s0 = self.entries@;
        match self.find(k) {
            Some(i) => {
                let _ = self.entries.remove(i);
                proof {
                    assert(self.entries@ == s0.remove(i as int));
                    let s = self.entries@;
                    assert(s == s0.remove(i as int));
                    assert forall|a: int| 0 <= a < s.len() implies #[trigger] s[a] == (if a < i { s0[a] } else { s0[a + 1] }) by {}
                    assert forall|a: int, b: int| 0 <= a < s.len() && 0 <= b < s.len() && a != b implies s[a].0 != s[b].0 by {
                        let a0 = if a < i { a } else { a + 1 };
                        let b0 = if b < i { b } else { b + 1 };
                        assert(s[a] == s0[a0] && s[b] == s0[b0]);
                    }
                    assert forall|key: u128| #[trigger] has_key_wide(s, key) == (has_key_wide(s0, key) && key != k) by {
                        if has_key_wide(s0, key) && key != k {
                            let j = choose|j: int| 0 <= j < s0.len() && s0[j].0 == key;
                            assert(j != i as int);
                            let j2 = if j < i { j } else { j - 1 };
                            assert(s[j2] == s0[j]);
                        }
                        if has_key_wide(s, key) {
                            let j = choose|j: int| 0 <= j < s.len() && s[j].0 == key;
                            let j0 = if j < i { j } else { j + 1 };
                            assert(s[j] == s0[j0]);
                            assert(j0 != i as int);
                        }
                    }
                    assert forall|key: u128| has_key_wide(s, key) implies
                        entries_map_wide(s)[key] == old(self).view_map().remove(k)[key] by {
                        let c = choose|j: int| 0 <= j < s.len() && s[j].0 == key;
                        let c0 = if c < i { c } else { c + 1 };
                        assert(s[c] == s0[c0]);
                        let d = choose|j: int| 0 <= j < s0.len() && s0[j].0 == key;
                        assert(d == c0);
                    }
                    assert(entries_map_wide(s) =~= entries_map_wide(s0).remove(k));
                }
            },
            None => {
                proof {
                    if has_key_wide(s0, k) {
                        assert(entries_map_wide(s0).dom().contains(k));
                    }
                }
                assert(self.view_map() =~= old(self).view_map().remove(k));
            },
        }
    }
}

impl<V: Copy> WideStore<V> {
    /// The value of key `k`, if present.
    pub fn get(&self, k: u128) -> (r: Option<V>)
        requires
            self.wf(),
        ensures
            r == (if self.view_map().dom().contains(k) { Some(self.view_map()[k]) } else { None::<V> }),
    {
        match self.find(k) {
            Some(i) => Some(self.entries[i].1),
            None => None,
        }
    }
}

impl<V: Copy> Store<V> {
    /// A copy of the store, entry for entry.
    pub fn duplicate(&self) -> (r: Self)
        ensures
            r.entries@ == self.entries@,
    {
        Store { entries: copy_vec(&self.entries) }
    }
}

impl<V: Copy> WideStore<V> {
    /// A copy of the store, entry for entry.
    pub fn duplicate(&self) -> (r: Self)
        ensures
            r.entries@ == self.entries@,
    {
        WideStore { entries: copy_vec(&self.entries) }
    }
}

/// A copy of a vector of copyable elements.
pub fn copy_vec<T: Copy>(v: &Vec<T>) -> (r: Vec<T>)
    ensures
        r@ == v@,
{
    let mut r: Vec<T> = Vec::new();
    let mut i: usize = 0;
    while i < v.len()
        invariant
            i <= v@.len(),
            r@ == v@.take(i as int),
        decreases v@.len() - i,
    {
        r.push(v[i]);
        proof {
            assert(v@.take(i + 1) =~= v@.take(i as int).push(v@[i as int]));
        }
        i = i + 1;
    }
    assert(v@.take(v@.len() as int) =~= v@);
    r
}

/// The sum of `f` over the values of entries.
pub open spec fn sum_values<V>(s: Seq<(u64, V)>, f: spec_fn(V) -> int) -> int
    decreases s.len(),
{
    if s.len() == 0 { 0 } else { sum_values(s.drop_last(), f) + f(s.last().1) }
}

/// Appending an entry adds its value.
pub proof fn lemma_sum_push<V>(s: Seq<(u64, V)>, f: spec_fn(V) -> int, e: (u64, V))
    ensures
        sum_values(s.push(e), f) == sum_values(s, f) + f(e.1),
{
    assert(s.push(e).drop_last() =~= s);
}

/// Replacing entry `i` changes the sum by the difference of the values.
pub proof fn lemma_sum_update<V>(s: Seq<(u64, V)>, f: spec_fn(V) -> int, i: int, e: (u64, V))
    requires
        0 <= i < s.len(),
    ensures
        sum_values(s.update(i, e), f) == sum_values(s, f) - f(s[i].1) + f(e.1),
    decreases s.len(),
{
    if i == s.len() - 1 {
        assert(s.update(i, e).drop_last() =~= s.drop_last());
    } else {
        lemma_sum_update(s.drop_last(), f, i, e);
        assert(s.update(i, e).drop_last() =~= s.drop_last().update(i, e));
    }
}

/// Removing entry `i` subtracts its value.
pub proof fn lemma_sum_remove<V>(s: Seq<(u64, V)>, f: spec_fn(V) -> int, i: int)
    requires
        0 <= i < s.len(),
    ensures
        sum_values(s.remove(i), f) == sum_values(s, f) - f(s[i].1),
    decreases s.len(),
{
    if i == s.len() - 1 {
        assert(s.remove(i) =~= s.drop_last());
    } else {
        lemma_sum_remove(s.drop_last(), f, i);
        assert(s.remove(i).drop_last() =~= s.drop_last().remove(i));
    }
}

/// Each entry's value is at most the sum, when `f` is never negative.
pub proof fn lemma_sum_bound<V>(s: Seq<(u64, V)>, f: spec_fn(V) -> int, i: int)
    requires
        0 <= i < s.len(),
        forall|v: V| #[trigger] f(v) >= 0,
    ensures
        f(s[i].1) <= sum_values(s, f),
        sum_values(s, f) >= 0,
    decreases s.len(),
{
    if i == s.len() - 1 {
        lemma_sum_nonneg(s.drop_last(), f);
    } else {
        lemma_sum_bound(s.drop_last(), f, i);
    }
}

/// The sum of a non-negative `f` is non-negative.
pub proof fn lemma_sum_nonneg<V>(s: Seq<(u64, V)>, f: spec_fn(V) -> int)
    requires
        forall|v: V| #[trigger] f(v) >= 0,
    ensures
        sum_values(s, f) >= 0,
    decreases s.len(),
{
    if s.len() > 0 {
        lemma_sum_nonneg(s.drop_last(), f);
    }
}


/// `t` with entry `e` put before the first entry whose key is not below `e`'s, replacing
/// that entry if it has `e`'s key: on entries in ascending key order, the insertion into
/// an ordered map.
pub open spec fn sorted_insert<V>(t: Seq<(u64, V)>, e: (u64, V)) -> Seq<(u64, V)>
    decreases t.len(),
{
    if t.len() == 0 {
        seq![e]
    } else if e.0 < t[0].0 {
        seq![e] + t
    } else if e.0 == t[0].0 {
        seq![e] + t.drop_first()
    } else {
        seq![t[0]] + sorted_insert(t.drop_first(), e)
    }
}

/// The entries of the ordered map that the entries `s` are collected into, one after
/// the other (a later entry replaces an earlier one with its key), in ascending key
/// order.
pub open spec fn sorted_collect<V>(s: Seq<(u64, V)>) -> Seq<(u64, V)>
    decreases s.len(),
{
    if s.len() == 0 { Seq::empty() } else { sorted_insert(sorted_collect(s.drop_last()), s.last()) }
}

/// The insertion at position `p`, the first whose key is not below `e`'s.
pub proof fn lemma_sorted_insert_at<V>(t: Seq<(u64, V)>, e: (u64, V), p: int)
    requires
        0 <= p <= t.len(),
        forall|j: int| 0 <= j < p ==> #[trigger] t[j].0 < e.0,
        p < t.len() ==> t[p].0 >= e.0,
    ensures
        sorted_insert(t, e) == t.take(p) + seq![e]
            + t.skip(if p < t.len() && t[p].0 == e.0 { p + 1 } else { p }),
    decreases t.len(),
{
    if t.len() == 0 {
        assert(t.take(p) + seq![e] + t.skip(p) =~= seq![e]);
    } else if p == 0 {
        if e.0 < t[0].0 {
            assert(t.take(0) + seq![e] + t.skip(0) =~= seq![e] + t);
        } else {
            assert(t.take(0) + seq![e] + t.skip(1) =~= seq![e] + t.drop_first());
        }
    } else {
        let u = t.drop_first();
        assert(t[0].0 < e.0);
        assert forall|j: int| 0 <= j < p - 1 implies #[trigger] u[j].0 < e.0 by {
            assert(u[j] == t[j + 1]);
        }
        lemma_sorted_insert_at(u, e, p - 1);
        let q = if p < t.len() && t[p].0 == e.0 { p + 1 } else { p };
        assert(seq![t[0]] + (u.take(p - 1) + seq![e] + u.skip(q - 1)) =~= t.take(p) + seq![e] + t.skip(q));
    }
}

/// Insert `e` into entries `v` as `sorted_insert` does.
pub fn insert_sorted<V: Copy>(v: &mut Vec<(u64, V)>, e: (u64, V))
    ensures
        final(v)@ == sorted_insert(old(v)@, e),
{
    let mut p: usize = 0;
    while p < v.len() && v[p].0 < e.0
        invariant
            p <= v@.len(),
            v@ == old(v)@,
            forall|j: int| 0 <= j < p ==> #[trigger] v@[j].0 < e.0,
        decreases v@.len() - p,
    {
        p = p + 1;
    }
    proof {
        lemma_sorted_insert_at(old(v)@, e, p as int);
    }
    if p < v.len() && v[p].0 == e.0 {
        let ghost t = v@;
        v.set(p, e);
        assert(v@ =~= t.take(p as int) + seq![e] + t.skip(p + 1));
    } else {
        let ghost t = v@;
        v.insert(p, e);
        assert(v@ =~= t.take(p as int) + seq![e] + t.skip(p as int));
    }
}

/// The entries `s` collected, as `sorted_collect` does.
pub fn collect_sorted<V: Copy>(s: &Vec<(u64, V)>) -> (r: Vec<(u64, V)>)
    ensures
        r@ == sorted_collect(s@),
{
    let mut r: Vec<(u64, V)> = Vec::new();
    let mut i: usize = 0;
    while i < s.len()
        invariant
            i <= s@.len(),
            r@ == sorted_collect(s@.take(i as int)),
        decreases s@.len() - i,
    {
        proof {
            assert(s@.take(i + 1).drop_last() =~= s@.take(i as int));
        }
        insert_sorted(&mut r, s[i]);
        i = i + 1;
    }
    assert(s@.take(s@.len() as int) =~= s@);
    r
}


/// Keys in strictly ascending order.
pub open spec fn keys_ascending<V>(t: Seq<(u64, V)>) -> bool {
    forall|i: int, j: int| 0 <= i < j < t.len() ==> t[i].0 < t[j].0
}

/// A list with distinct keys stands for `m` when every entry is in `m` and every key of
/// `m` has an entry.
pub proof fn lemma_entries_map_is<V>(s: Seq<(u64, V)>, m: Map<u64, V>)
    requires
        keys_distinct(s),
        forall|i: int| 0 <= i < s.len() ==> m.dom().contains(#[trigger] s[i].0) && m[s[i].0] == s[i].1,
        forall|k: u64| m.dom().contains(k) ==> #[trigger] has_key(s, k),
    ensures
        entries_map(s) == m,
{
    assert forall|k: u64| #[trigger] entries_map(s).dom().contains(k) == m.dom().contains(k) by {
        if has_key(s, k) {
            let i = choose|i: int| 0 <= i < s.len() && s[i].0 == k;
            assert(m.dom().contains(s[i].0));
        }
    }
    assert forall|k: u64| m.dom().contains(k) implies entries_map(s)[k] == m[k] by {
        assert(has_key(s, k));
        let i = choose|i: int| 0 <= i < s.len() && s[i].0 == k;
        lemma_entry_value(s, i);
    }
    assert(entries_map(s) =~= m);
}

/// Inserting into entries in ascending key order keeps the order and inserts into the
/// map they stand for.
pub proof fn lemma_sorted_insert_map<V>(t: Seq<(u64, V)>, e: (u64, V))
    requires
        keys_ascending(t),
    ensures
        keys_ascending(sorted_insert(t, e)),
        entries_map(sorted_insert(t, e)) == entries_map(t).insert(e.0, e.1),
    decreases t.len(),
{
    let r = sorted_insert(t, e);
    let m = entries_map(t).insert(e.0, e.1);
    assert(keys_distinct(t));
    assert forall|i: int| 0 <= i < t.len() implies entries_map(t).dom().contains(#[trigger] t[i].0)
        && entries_map(t)[t[i].0] == t[i].1 by {
        lemma_entry_value(t, i);
    }
    if t.len() == 0 {
        assert(r =~= seq![e]);
        assert forall|k: u64| m.dom().contains(k) implies #[trigger] has_key(r, k) by {
            assert(!has_key(t, k));
            assert(r[0].0 == k);
        }
        lemma_entries_map_is(r, m);
    } else if e.0 < t[0].0 {
        assert(r =~= seq![e] + t);
        assert forall|i: int| 0 <= i < r.len() implies m.dom().contains(#[trigger] r[i].0) && m[r[i].0] == r[i].1 by {
            if i > 0 {
                assert(r[i] == t[i - 1]);
                assert(t[0].0 <= t[i - 1].0);
            }
        }
        assert forall|k: u64| m.dom().contains(k) implies #[trigger] has_key(r, k) by {
            if k == e.0 {
                assert(r[0].0 == k);
            } else {
                let j = choose|j: int| 0 <= j < t.len() && t[j].0 == k;
                assert(r[j + 1].0 == k);
            }
        }
        assert forall|i: int, j: int| 0 <= i < j < r.len() implies r[i].0 < r[j].0 by {
            if i > 0 {
                assert(r[i] == t[i - 1] && r[j] == t[j - 1]);
            } else {
                assert(r[j] == t[j - 1]);
                assert(t[0].0 <= t[j - 1].0);
            }
        }
        lemma_entries_map_is(r, m);
    } else if e.0 == t[0].0 {
        assert(r =~= seq![e] + t.drop_first());
        assert forall|i: int| 0 <= i < r.len() implies m.dom().contains(#[trigger] r[i].0) && m[r[i].0] == r[i].1 by {
            if i > 0 {
                assert(r[i] == t[i]);
            }
        }
        assert forall|k: u64| m.dom().contains(k) implies #[trigger] has_key(r, k) by {
            if k == e.0 {
                assert(r[0].0 == k);
            } else {
                let j = choose|j: int| 0 <= j < t.len() && t[j].0 == k;
                assert(j != 0);
                assert(r[j].0 == k);
            }
        }
        assert forall|i: int, j: int| 0 <= i < j < r.len() implies r[i].0 < r[j].0 by {
            assert(r[j] == t[j]);
            if i > 0 {
                assert(r[i] == t[i]);
            }
        }
        lemma_entries_map_is(r, m);
    } else {
        let u = t.drop_first();
        let rr = sorted_insert(u, e);
        assert(keys_ascending(u));
        lemma_sorted_insert_map(u, e);
        assert(r =~= seq![t[0]] + rr);
        assert(keys_distinct(u));
        assert(keys_distinct(rr));
        assert forall|k: u64| #[trigger] has_key(rr, k) implies (k == e.0 || has_key(u, k)) by {
            let i = choose|i: int| 0 <= i < rr.len() && rr[i].0 == k;
            lemma_entry_value(rr, i);
            if k != e.0 {
                assert(entries_map(u).dom().contains(k));
            }
        }
        assert forall|i: int| 0 <= i < rr.len() implies t[0].0 < #[trigger] rr[i].0 by {
            assert(has_key(rr, rr[i].0));
            if rr[i].0 != e.0 {
                let j = choose|j: int| 0 <= j < u.len() && u[j].0 == rr[i].0;
                assert(u[j] == t[j + 1]);
            }
        }
        assert forall|i: int| 0 <= i < r.len() implies m.dom().contains(#[trigger] r[i].0) && m[r[i].0] == r[i].1 by {
            if i > 0 {
                let x = rr[i - 1];
                assert(r[i] == x);
                lemma_entry_value(rr, i - 1);
                if x.0 != e.0 {
                    assert(has_key(rr, x.0));
                    let j = choose|j: int| 0 <= j < u.len() && u[j].0 == x.0;
                    lemma_entry_value(u, j);
                    assert(u[j] == t[j + 1]);
                }
            }
        }
        assert forall|k: u64| m.dom().contains(k) implies #[trigger] has_key(r, k) by {
            if k == t[0].0 {
                assert(r[0].0 == k);
            } else {
                if k != e.0 {
                    let j = choose|j: int| 0 <= j < t.len() && t[j].0 == k;
                    assert(u[j - 1] == t[j]);
                    lemma_entry_value(u, j - 1);
                }
                assert(entries_map(rr).dom().contains(k));
                let i = choose|i: int| 0 <= i < rr.len() && rr[i].0 == k;
                assert(r[i + 1].0 == k);
            }
        }
        assert forall|i: int, j: int| 0 <= i < j < r.len() implies r[i].0 < r[j].0 by {
            assert(r[j] == rr[j - 1]);
            if i > 0 {
                assert(r[i] == rr[i - 1]);
            }
        }
        lemma_entries_map_is(r, m);
    }
}

/// Entries with distinct keys, collected, are in ascending key order and stand for the
/// same map.
pub proof fn lemma_sorted_collect_map<V>(s: Seq<(u64, V)>)
    requires
        keys_distinct(s),
    ensures
        keys_ascending(sorted_collect(s)),
        keys_distinct(sorted_collect(s)),
        entries_map(sorted_collect(s)) == entries_map(s),
    decreases s.len(),
{
    if s.len() == 0 {
        assert(entries_map(s) =~= entries_map(Seq::<(u64, V)>::empty()));
    } else {
        let t = s.drop_last();
        assert(keys_distinct(t));
        lemma_sorted_collect_map(t);
        lemma_sorted_insert_map(sorted_collect(t), s.last());
        lemma_entries_map_take(s, s.len() - 1);
        assert(s.take(s.len() - 1) =~= t);
        assert(s.take(s.len() as int) =~= s);
    }
}


/// Collecting entries gives at most as many entries.
pub proof fn lemma_sorted_collect_len<V>(s: Seq<(u64, V)>)
    ensures
        sorted_collect(s).len() <= s.len(),
    decreases s.len(),
{
    if s.len() > 0 {
        lemma_sorted_collect_len(s.drop_last());
        lemma_sorted_insert_len(sorted_collect(s.drop_last()), s.last());
    }
}

/// Inserting adds at most one entry.
pub proof fn lemma_sorted_insert_len<V>(t: Seq<(u64, V)>, e: (u64, V))
    ensures
        sorted_insert(t, e).len() <= t.len() + 1,
    decreases t.len(),
{
    if t.len() > 0 && e.0 > t[0].0 {
        lemma_sorted_insert_len(t.drop_first(), e);
    }
}


/// Entries already in ascending key order are collected as they are.
pub proof fn lemma_sorted_collect_ascending<V>(s: Seq<(u64, V)>)
    requires
        keys_ascending(s),
    ensures
        sorted_collect(s) == s,
    decreases s.len(),
{
    if s.len() > 0 {
        let t = s.drop_last();
        lemma_sorted_collect_ascending(t);
        assert forall|j: int| 0 <= j < t.len() implies #[trigger] t[j].0 < s.last().0 by {
            assert(t[j] == s[j]);
        }
        lemma_sorted_insert_at(t, s.last(), t.len() as int);
        assert(t.take(t.len() as int) + seq![s.last()] + t.skip(t.len() as int) =~= s);
    }
}

} // verus!
