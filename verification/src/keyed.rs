//! An association list keyed by strings.
//!
//! Lookups read the most recent entry for a key, so the list behaves as a
//! finite map from key text to value. `insert` keeps at most one entry per key.

use vstd::prelude::*;

verus! {

/// Entries as (key text, value) pairs, in insertion order.
pub open spec fn entries_view<V>(entries: Seq<(String, V)>) -> Seq<(Seq<char>, V)> {
    entries.map_values(|e: (String, V)| (e.0@, e.1))
}

/// The value of the latest entry for `key`.
pub open spec fn lookup<V>(entries: Seq<(Seq<char>, V)>, key: Seq<char>) -> Option<V>
    decreases entries.len(),
{
    if entries.len() == 0 {
        None
    } else if entries.last().0 == key {
        Some(entries.last().1)
    } else {
        lookup(entries.drop_last(), key)
    }
}

/// The entries whose key is not `key`, in order.
pub open spec fn without<V>(entries: Seq<(Seq<char>, V)>, key: Seq<char>) -> Seq<(Seq<char>, V)>
    decreases entries.len(),
{
    if entries.len() == 0 {
        Seq::empty()
    } else if entries.last().0 == key {
        without(entries.drop_last(), key)
    } else {
        without(entries.drop_last(), key).push(entries.last())
    }
}

/// Removing `key` forgets it and keeps every other key's value.
pub proof fn lemma_lookup_without<V>(entries: Seq<(Seq<char>, V)>, key: Seq<char>, q: Seq<char>)
    ensures
        lookup(without(entries, key), q) == if q == key {
            None
        } else {
            lookup(entries, q)
        },
    decreases entries.len(),
{
    if entries.len() > 0 {
        lemma_lookup_without(entries.drop_last(), key, q);
        if entries.last().0 != key {
            let w = without(entries.drop_last(), key);
            assert(w.push(entries.last()).drop_last() =~= w);
        }
    }
}

/// Appending an entry makes it the latest for its key.
pub proof fn lemma_lookup_push<V>(entries: Seq<(Seq<char>, V)>, key: Seq<char>, value: V, q: Seq<char>)
    ensures
        lookup(entries.push((key, value)), q) == if q == key {
            Some(value)
        } else {
            lookup(entries, q)
        },
{
    assert(entries.push((key, value)).drop_last() =~= entries);
}

/// No two entries share a key.
pub open spec fn keys_distinct<V>(entries: Seq<(Seq<char>, V)>) -> bool {
    forall|i: int, j: int|
        0 <= i < entries.len() && 0 <= j < entries.len() && i != j ==> #[trigger] entries[i].0 != #[trigger] entries[j].0
}

/// Some entry has key `key`.
pub open spec fn has_key<V>(entries: Seq<(Seq<char>, V)>, key: Seq<char>) -> bool {
    exists|i: int| 0 <= i < entries.len() && #[trigger] entries[i].0 == key
}

/// A key is found exactly when some entry has it.
pub proof fn lemma_lookup_found_iff_has_key<V>(entries: Seq<(Seq<char>, V)>, key: Seq<char>)
    ensures
        lookup(entries, key) is Some <==> has_key(entries, key),
    decreases entries.len(),
{
    if entries.len() > 0 {
        let rest = entries.drop_last();
        lemma_lookup_found_iff_has_key(rest, key);
        if entries.last().0 == key {
            assert(entries[entries.len() - 1].0 == key);
        } else {
            if has_key(rest, key) {
                let i = choose|i: int| 0 <= i < rest.len() && #[trigger] rest[i].0 == key;
                assert(entries[i].0 == key);
            }
            if has_key(entries, key) {
                let i = choose|i: int| 0 <= i < entries.len() && #[trigger] entries[i].0 == key;
                assert(i != entries.len() - 1);
                assert(rest[i].0 == key);
            }
        }
    }
}

/// With distinct keys, each entry is what its key finds.
pub proof fn lemma_lookup_entry<V>(entries: Seq<(Seq<char>, V)>, i: int)
    requires
        keys_distinct(entries),
        0 <= i < entries.len(),
    ensures
        lookup(entries, entries[i].0) == Some(entries[i].1),
    decreases entries.len(),
{
    if i != entries.len() - 1 {
        let rest = entries.drop_last();
        assert(entries[i].0 != entries[entries.len() - 1].0);
        assert(keys_distinct(rest)) by {
            assert forall|a: int, b: int|
                0 <= a < rest.len() && 0 <= b < rest.len() && a != b implies #[trigger] rest[a].0 != #[trigger] rest[b].0 by {
                assert(rest[a] == entries[a] && rest[b] == entries[b]);
            }
        }
        assert(rest[i] == entries[i]);
        lemma_lookup_entry(rest, i);
    }
}

/// A finite map from key text to values, kept as an association list.
pub struct KeyedList<V> {
    entries: Vec<(String, V)>,
}

impl<V> KeyedList<V> {
    /// The entries, keys taken by their text.
    pub closed spec fn view_entries(&self) -> Seq<(Seq<char>, V)> {
        entries_view(self.entries@)
    }

    /// The value stored for `key`, if any.
    pub open spec fn spec_get(&self, key: Seq<char>) -> Option<V> {
        lookup(self.view_entries(), key)
    }

    /// The number of entries.
    pub closed spec fn spec_len(&self) -> nat {
        self.entries@.len()
    }

    /// The value of entry `i`.
    pub closed spec fn spec_value_at(&self, i: int) -> V {
        self.entries@[i].1
    }

    /// The key of entry `i`.
    pub closed spec fn spec_key_at(&self, i: int) -> Seq<char> {
        self.entries@[i].0@
    }

    /// No two entries share a key.
    pub closed spec fn distinct(&self) -> bool {
        keys_distinct(self.view_entries())
    }

    /// With distinct keys, entry `i` is what its key finds, and every key
    /// found is the key of some entry.
    pub proof fn lemma_entries(&self)
        requires
            self.distinct(),
        ensures
            forall|i: int| 0 <= i < self.spec_len() ==> self.spec_get(#[trigger] self.spec_key_at(i)) == Some(self.spec_value_at(i)),
            forall|k: Seq<char>| #[trigger] self.spec_get(k) is Some ==> exists|i: int| 0 <= i < self.spec_len() && self.spec_key_at(i) == k,
            forall|i: int, j: int| 0 <= i < self.spec_len() && 0 <= j < self.spec_len() && i != j ==> #[trigger] self.spec_key_at(i) != #[trigger] self.spec_key_at(j),
    {
        let es = self.view_entries();
        assert forall|i: int| 0 <= i < self.spec_len() implies self.spec_get(#[trigger] self.spec_key_at(i)) == Some(self.spec_value_at(i)) by {
            assert(es[i] == (self.spec_key_at(i), self.spec_value_at(i)));
            lemma_lookup_entry(es, i);
        }
        assert forall|k: Seq<char>| #[trigger] self.spec_get(k) is Some implies exists|i: int| 0 <= i < self.spec_len() && self.spec_key_at(i) == k by {
            lemma_lookup_found_iff_has_key(es, k);
            let i = choose|i: int| 0 <= i < es.len() && #[trigger] es[i].0 == k;
            assert(self.spec_key_at(i) == es[i].0);
        }
        assert forall|i: int, j: int| 0 <= i < self.spec_len() && 0 <= j < self.spec_len() && i != j implies #[trigger] self.spec_key_at(i) != #[trigger] self.spec_key_at(j) by {
            assert(es[i].0 == self.spec_key_at(i) && es[j].0 == self.spec_key_at(j));
        }
    }

    /// An empty map.
    pub fn new() -> (m: Self)
        ensures
            forall|k: Seq<char>| m.spec_get(k) is None,
            m.spec_len() == 0,
            m.distinct(),
    {
        let m = KeyedList { entries: Vec::new() };
        assert(m.view_entries() =~= Seq::empty());
        m
    }

    /// The number of entries.
    pub fn len(&self) -> (n: usize)
        ensures
            n == self.spec_len(),
    {
        self.entries.len()
    }

    /// The value of entry `i`.
    pub fn value_at(&self, i: usize) -> (v: &V)
        requires
            i < self.spec_len(),
        ensures
            *v == self.spec_value_at(i as int),
    {
        &self.entries[i].1
    }

    /// The value stored for `key`, if any.
    pub fn get(&self, key: &str) -> (r: Option<&V>)
        ensures
            r matches Some(v) ==> self.spec_get(key@) == Some(*v),
            r is None ==> self.spec_get(key@) is None,
    {
        let mut i = self.entries.len();
        let ghost es = self.view_entries();
        assert(es.take(i as int) =~= es);
        while i > 0
            invariant
                i <= self.entries@.len(),
                es == self.view_entries(),
                es.len() == self.entries@.len(),
                lookup(es, key@) == lookup(es.take(i as int), key@),
            decreases i,
        {
            let e = &self.entries[i - 1];
            proof {
                assert(es.take(i as int).last() == (e.0@, e.1));
                assert(es.take(i as int).drop_last() =~= es.take(i - 1));
            }
            if string_eq_str(&e.0, key) {
                return Some(&e.1);
            }
            i = i - 1;
        }
        None
    }

    /// Stores `value` for `key`, replacing any earlier value.
    pub fn insert(&mut self, key: String, value: V)
        ensures
            forall|q: Seq<char>|
                #[trigger] final(self).spec_get(q) == if q == key@ {
                    Some(value)
                } else {
                    old(self).spec_get(q)
                },
            old(self).distinct() ==> final(self).distinct() && final(self).spec_len() == old(self).spec_len() + (
            if old(self).spec_get(key@) is Some {
                0int
            } else {
                1int
            }),
    {
        let removed = self.remove(key.as_str());
        let ghost mid = *self;
        let ghost before = self.view_entries();
        let ghost raw = self.entries@;
        let ghost k = key@;
        self.entries.push((key, value));
        proof {
            assert(self.entries@ == raw.push((key, value)));
            assert(before == entries_view(raw));
            let now_view = entries_view(self.entries@);
            assert(now_view.len() == before.len() + 1);
            assert forall|i: int| 0 <= i < before.len() implies now_view[i] == before[i] by {
                assert(self.entries@[i] == raw[i]);
            }
            assert(now_view[before.len() as int] == (k, value));
            assert(self.view_entries() =~= before.push((k, value)));
            assert forall|q: Seq<char>| #[trigger] self.spec_get(q) == if q == key@ {
                Some(value)
            } else {
                old(self).spec_get(q)
            } by {
                assert(mid.spec_get(q) == lookup(before, q));
                lemma_lookup_push(before, k, value, q);
            }
            if old(self).distinct() {
                let nv = self.view_entries();
                assert forall|a: int, b: int| 0 <= a < nv.len() && 0 <= b < nv.len() && a != b implies #[trigger] nv[a].0 != #[trigger] nv[b].0 by {
                    if a < before.len() && b < before.len() {
                        assert(nv[a] == before[a] && nv[b] == before[b]);
                    } else if a < before.len() {
                        assert(nv[a] == before[a]);
                        assert(before[a].0 == mid.spec_key_at(a));
                    } else {
                        assert(nv[b] == before[b]);
                        assert(before[b].0 == mid.spec_key_at(b));
                    }
                }
            }
        }
    }

    /// Forgets `key`, returning the value stored for it.
    pub fn remove(&mut self, key: &str) -> (r: Option<V>)
        ensures
            r == old(self).spec_get(key@),
            forall|q: Seq<char>|
                #[trigger] final(self).spec_get(q) == if q == key@ {
                    None
                } else {
                    old(self).spec_get(q)
                },
            final(self).spec_len() <= old(self).spec_len(),
            forall|i: int| 0 <= i < final(self).spec_len() ==> final(self).spec_key_at(i) != key@,
            old(self).distinct() ==> final(self).distinct() && final(self).spec_len() + (if r is Some {
                1int
            } else {
                0int
            }) == old(self).spec_len(),
    {
        let ghost es = self.view_entries();
        let mut old_entries: Vec<(String, V)> = Vec::new();
        std::mem::swap(&mut old_entries, &mut self.entries);
        let mut kept: Vec<(String, V)> = Vec::new();
        let mut found: Option<V> = None;
        let ghost src = old_entries@;
        for e in it: old_entries
            invariant
                src == it.seq(),
                es == entries_view(src),
                entries_view(kept@) == without(es.take(it.index() as int), key@),
                found == lookup(es.take(it.index() as int), key@),
                kept@.len() <= it.index(),
                forall|i: int| 0 <= i < kept@.len() ==> kept@[i].0@ != key@,
                forall|a: int|
                    0 <= a < kept@.len() ==> exists|j: int| 0 <= j < it.index() && #[trigger] entries_view(kept@)[a] == es[j],
                keys_distinct(es) ==> keys_distinct(entries_view(kept@)),
                keys_distinct(es) ==> kept@.len() + (if found is Some {
                    1int
                } else {
                    0int
                }) == it.index(),
        {
            proof {
                let t = es.take(it.index() + 1);
                assert(t.drop_last() =~= es.take(it.index() as int));
                assert(t.last() == (e.0@, e.1));
            }
            let ghost idx = it.index() as int;
            proof {
                assert(es[idx] == (e.0@, e.1));
            }
            if string_eq_str(&e.0, key) {
                proof {
                    if keys_distinct(es) && found is Some {
                        lemma_lookup_found_iff_has_key(es.take(idx), key@);
                        let j = choose|j: int| 0 <= j < es.take(idx).len() && #[trigger] es.take(idx)[j].0 == key@;
                        assert(es[j].0 == es[idx].0);
                    }
                }
                found = Some(e.1);
            } else {
                let ghost before = kept@;
                kept.push(e);
                proof {
                    let kv = entries_view(kept@);
                    assert(kv =~= entries_view(before).push((e.0@, e.1)));
                    assert forall|a: int| 0 <= a < kept@.len() implies exists|j: int|
                        0 <= j < idx + 1 && #[trigger] kv[a] == es[j] by {
                        if a < before.len() {
                            assert(kv[a] == entries_view(before)[a]);
                            let j = choose|j: int| 0 <= j < idx && #[trigger] entries_view(before)[a] == es[j];
                            assert(kv[a] == es[j]);
                        } else {
                            assert(kv[a] == es[idx]);
                        }
                    }
                    if keys_distinct(es) {
                        assert forall|a: int, b: int| 0 <= a < kv.len() && 0 <= b < kv.len() && a != b implies #[trigger] kv[a].0 != #[trigger] kv[b].0 by {
                            let ja = choose|j: int| 0 <= j < idx + 1 && #[trigger] kv[a] == es[j];
                            let jb = choose|j: int| 0 <= j < idx + 1 && #[trigger] kv[b] == es[j];
                            if a < before.len() && b < before.len() {
                                assert(kv[a] == entries_view(before)[a] && kv[b] == entries_view(before)[b]);
                            } else if ja == jb {
                                if a < before.len() {
                                    let j2 = choose|j: int| 0 <= j < idx && #[trigger] entries_view(before)[a] == es[j];
                                    assert(kv[a] == entries_view(before)[a]);
                                    assert(es[j2] == es[ja]);
                                    assert(j2 != idx);
                                } else {
                                    let j2 = choose|j: int| 0 <= j < idx && #[trigger] entries_view(before)[b] == es[j];
                                    assert(kv[b] == entries_view(before)[b]);
                                }
                            }
                        }
                    }
                }
            }
        }
        proof {
            assert(es.take(es.len() as int) =~= es);
        }
        self.entries = kept;
        proof {
            assert forall|q: Seq<char>| #[trigger] self.spec_get(q) == if q == key@ {
                None
            } else {
                old(self).spec_get(q)
            } by {
                lemma_lookup_without(es, key@, q);
            }
        }
        found
    }
}

/// Whether a `String` and a `str` hold the same text.
pub fn string_eq_str(a: &String, b: &str) -> (r: bool)
    ensures
        r == (a@ == b@),
{
    let b_owned = b.to_owned();
    *a == b_owned
}

} // verus!
