//! Entries under string keys, kept in the order in which the keys were first
//! bound, and a map from strings to strings made of them.

use crate::text::str_eq;
use vstd::prelude::*;

verus! {

/// Whether the keys of `entries` are pairwise different.
pub open spec fn keys_distinct<V>(entries: Seq<(Seq<char>, V)>) -> bool {
    forall|i: int, j: int|
        0 <= i < j < entries.len() ==> (#[trigger] entries[i]).0 != (#[trigger] entries[j]).0
}

/// The value that `entries` holds for `key`, if any.
pub open spec fn value_of<V>(entries: Seq<(Seq<char>, V)>, key: Seq<char>) -> Option<V>
    decreases entries.len(),
{
    if entries.len() == 0 {
        None
    } else if entries.last().0 == key {
        Some(entries.last().1)
    } else {
        value_of(entries.drop_last(), key)
    }
}

/// `entries` with `key` bound to `value`: in place where `key` was bound, at
/// the end where it was not.
pub open spec fn bind<V>(entries: Seq<(Seq<char>, V)>, key: Seq<char>, value: V) -> Seq<
    (Seq<char>, V),
>
    decreases entries.len(),
{
    if entries.len() == 0 {
        seq![(key, value)]
    } else if entries.last().0 == key {
        entries.drop_last().push((key, value))
    } else if value_of(entries.drop_last(), key) is Some {
        bind(entries.drop_last(), key, value).push(entries.last())
    } else {
        entries.push((key, value))
    }
}

/// A key has a value exactly where an entry holds it; where the keys are
/// distinct, the value is that of the one entry with the key.
pub proof fn lemma_value_of<V>(entries: Seq<(Seq<char>, V)>, key: Seq<char>)
    ensures
        value_of(entries, key) is Some <==> exists|i: int|
            0 <= i < entries.len() && (#[trigger] entries[i]).0 == key,
        forall|i: int|
            keys_distinct(entries) && 0 <= i < entries.len() && (#[trigger] entries[i]).0 == key
                ==> value_of(entries, key) == Some(entries[i].1),
    decreases entries.len(),
{
    if entries.len() > 0 {
        let rest = entries.drop_last();
        lemma_value_of(rest, key);
        if entries.last().0 == key {
            assert(entries[entries.len() - 1].0 == key);
        } else {
            if value_of(rest, key) is Some {
                let i = choose|i: int| 0 <= i < rest.len() && (#[trigger] rest[i]).0 == key;
                assert(entries[i] == rest[i]);
            }
            if exists|i: int| 0 <= i < entries.len() && (#[trigger] entries[i]).0 == key {
                let i = choose|i: int| 0 <= i < entries.len() && (#[trigger] entries[i]).0 == key;
                assert(rest[i] == entries[i]);
            }
        }
        assert forall|i: int|
            keys_distinct(entries) && 0 <= i < entries.len() && (#[trigger] entries[i]).0
                == key implies value_of(entries, key) == Some(entries[i].1) by {
            if i < entries.len() - 1 {
                assert(entries[i].0 != entries[entries.len() - 1].0);
                assert(rest[i] == entries[i]);
                assert(keys_distinct(rest)) by {
                    assert forall|a: int, b: int| 0 <= a < b < rest.len() implies (
                    #[trigger] rest[a]).0 != (#[trigger] rest[b]).0 by {
                        assert(rest[a] == entries[a] && rest[b] == entries[b]);
                    }
                }
            }
        }
    }
}

/// A map from strings to strings.
#[derive(Debug)]
pub struct StringMap {
    entries: Vec<(String, String)>,
}

impl StringMap {
    /// The keys of the entries are pairwise different.
    pub open spec fn wf(&self) -> bool {
        keys_distinct(self.pairs())
    }

    /// The entries, in the order in which their keys were first inserted.
    pub closed spec fn pairs(&self) -> Seq<(Seq<char>, Seq<char>)> {
        Seq::new(self.entries@.len(), |i: int| (self.entries@[i].0@, self.entries@[i].1@))
    }

    /// The value bound to `key`, if any.
    pub open spec fn spec_get(&self, key: Seq<char>) -> Option<Seq<char>> {
        value_of(self.pairs(), key)
    }

    /// A map without entries.
    pub fn new() -> (m: StringMap)
        ensures
            m.wf(),
            m.pairs() == Seq::<(Seq<char>, Seq<char>)>::empty(),
    {
        let m = StringMap { entries: Vec::new() };
        proof {
            assert(m.pairs() =~= Seq::<(Seq<char>, Seq<char>)>::empty());
        }
        m
    }

    /// The number of entries.
    pub fn len(&self) -> (n: usize)
        ensures
            n == self.pairs().len(),
    {
        self.entries.len()
    }

    /// The key of entry `i`.
    pub fn key_at(&self, i: usize) -> (k: &String)
        requires
            i < self.pairs().len(),
        ensures
            k@ == self.pairs()[i as int].0,
    {
        &self.entries[i].0
    }

    /// The value of entry `i`.
    pub fn value_at(&self, i: usize) -> (v: &String)
        requires
            i < self.pairs().len(),
        ensures
            v@ == self.pairs()[i as int].1,
    {
        &self.entries[i].1
    }

    /// The position of the last entry for `key`, if there is one.
    fn position(&self, key: &str) -> (r: Option<usize>)
        ensures
            r is Some ==> r->0 < self.pairs().len() && self.pairs()[r->0 as int].0 == key@,
            r is Some ==> forall|i: int|
                r->0 < i < self.pairs().len() ==> (#[trigger] self.pairs()[i]).0 != key@,
            r is None ==> forall|i: int|
                0 <= i < self.pairs().len() ==> (#[trigger] self.pairs()[i]).0 != key@,
    {
        let mut i: usize = self.entries.len();
        while i > 0
            invariant
                i <= self.entries.len(),
                forall|k: int| i <= k < self.pairs().len() ==> (#[trigger] self.pairs()[k]).0 != key@,
            decreases i,
        {
            i -= 1;
            if str_eq(self.entries[i].0.as_str(), key) {
                return Some(i);
            }
        }
        None
    }

    /// The value bound to `key`, if any.
    pub fn get(&self, key: &str) -> (r: Option<&String>)
        ensures
            r is Some == self.spec_get(key@) is Some,
            r is Some ==> r->0@ == self.spec_get(key@)->0,
    {
        match self.position(key) {
            Some(i) => {
                proof {
                    lemma_last_entry(self.pairs(), key@, i as int);
                }
                Some(&self.entries[i].1)
            },
            None => {
                proof {
                    lemma_value_of(self.pairs(), key@);
                }
                None
            },
        }
    }

    /// Binds `key` to `value`, replacing what `key` was bound to.
    pub fn insert(&mut self, key: String, value: String)
        ensures
            final(self).pairs() == bind(old(self).pairs(), key@, value@),
            old(self).wf() ==> final(self).wf(),
            old(self).wf() ==> final(self).spec_get(key@) == Some(value@),
            old(self).wf() ==> forall|other: Seq<char>|
                other != key@ ==> final(self).spec_get(other) == old(self).spec_get(other),
    {
        let ghost before = self.pairs();
        let found = self.position(key.as_str());
        match found {
            Some(i) => {
                self.entries.set(i, (key, value));
                proof {
                    assert(self.pairs() =~= before.update(i as int, (key@, value@)));
                    lemma_last_entry(before, key@, i as int);
                }
            },
            None => {
                self.entries.push((key, value));
                proof {
                    assert(self.pairs() =~= before.push((key@, value@)));
                    lemma_bind_fresh(before, key@, value@);
                }
            },
        }
        proof {
            if keys_distinct(before) {
                lemma_bind(before, key@, value@);
            }
        }
    }
}

/// Where entry `i` is the last one for `key`, the map holds the value of
/// entry `i` for `key`, and binding `key` changes the value of entry `i`.
pub proof fn lemma_last_entry<V>(entries: Seq<(Seq<char>, V)>, key: Seq<char>, i: int)
    requires
        0 <= i < entries.len(),
        entries[i].0 == key,
        forall|k: int| i < k < entries.len() ==> (#[trigger] entries[k]).0 != key,
    ensures
        value_of(entries, key) == Some(entries[i].1),
        forall|value: V| #[trigger]
            bind(entries, key, value) == entries.update(i, (key, value)),
    decreases entries.len(),
{
    let rest = entries.drop_last();
    if i == entries.len() - 1 {
        assert forall|value: V| #[trigger]
            bind(entries, key, value) == entries.update(i, (key, value)) by {
            assert(rest.push((key, value)) =~= entries.update(i, (key, value)));
        }
    } else {
        assert(entries[entries.len() - 1].0 != key);
        assert(rest[i] == entries[i]);
        assert forall|k: int| i < k < rest.len() implies (#[trigger] rest[k]).0 != key by {
            assert(rest[k] == entries[k]);
        }
        lemma_last_entry(rest, key, i);
        assert forall|value: V| #[trigger]
            bind(entries, key, value) == entries.update(i, (key, value)) by {
            assert(bind(rest, key, value) == rest.update(i, (key, value)));
            assert(rest.update(i, (key, value)).push(entries.last()) =~= entries.update(
                i,
                (key, value),
            ));
        }
    }
}

/// Binding a key that no entry holds adds an entry at the end.
pub proof fn lemma_bind_fresh<V>(entries: Seq<(Seq<char>, V)>, key: Seq<char>, value: V)
    requires
        forall|i: int| 0 <= i < entries.len() ==> (#[trigger] entries[i]).0 != key,
    ensures
        bind(entries, key, value) == entries.push((key, value)),
{
    if entries.len() > 0 {
        let rest = entries.drop_last();
        lemma_value_of(rest, key);
        assert(entries[entries.len() - 1].0 != key);
        if value_of(rest, key) is Some {
            let i = choose|i: int| 0 <= i < rest.len() && (#[trigger] rest[i]).0 == key;
            assert(entries[i] == rest[i]);
        }
    } else {
        assert(entries.push((key, value)) =~= seq![(key, value)]);
    }
}

/// Dropping the last entry keeps distinct keys distinct.
proof fn lemma_drop_last_distinct<V>(entries: Seq<(Seq<char>, V)>)
    requires
        keys_distinct(entries),
        entries.len() > 0,
    ensures
        keys_distinct(entries.drop_last()),
{
    let rest = entries.drop_last();
    assert forall|a: int, b: int| 0 <= a < b < rest.len() implies (#[trigger] rest[a]).0 != (
    #[trigger] rest[b]).0 by {
        assert(rest[a] == entries[a] && rest[b] == entries[b]);
    }
}

/// What `bind` does to a map: the key gets the value, every other key keeps
/// what it had, and distinct keys stay distinct.
pub proof fn lemma_bind<V>(entries: Seq<(Seq<char>, V)>, key: Seq<char>, value: V)
    requires
        keys_distinct(entries),
    ensures
        keys_distinct(bind(entries, key, value)),
        value_of(bind(entries, key, value), key) == Some(value),
        forall|other: Seq<char>|
            other != key ==> value_of(bind(entries, key, value), other) == value_of(entries, other),
    decreases entries.len(),
{
    let out = bind(entries, key, value);
    if entries.len() == 0 {
        assert(out.drop_last() =~= entries);
    } else {
        let rest = entries.drop_last();
        let last = entries.last();
        lemma_drop_last_distinct(entries);
        lemma_value_of(rest, key);
        if last.0 == key {
            assert(out.drop_last() =~= rest);
            assert forall|a: int, b: int| 0 <= a < b < out.len() implies (#[trigger] out[a]).0 != (
            #[trigger] out[b]).0 by {
                assert(out[a] == entries[a]);
                assert(entries[a].0 != entries[entries.len() - 1].0);
            }
        } else if value_of(rest, key) is Some {
            lemma_bind(rest, key, value);
            let inner = bind(rest, key, value);
            assert(out.drop_last() =~= inner);
            assert(out.last() == last);
            lemma_bind_keys(rest, key, value);
            assert forall|a: int, b: int| 0 <= a < b < out.len() implies (#[trigger] out[a]).0 != (
            #[trigger] out[b]).0 by {
                if b == out.len() - 1 {
                    assert(out[a] == inner[a]);
                    assert(inner[a].0 == rest[a].0);
                    assert(rest[a] == entries[a]);
                    assert(entries[a].0 != entries[entries.len() - 1].0);
                } else {
                    assert(out[a] == inner[a] && out[b] == inner[b]);
                }
            }
            assert forall|other: Seq<char>| other != key implies value_of(out, other) == value_of(
                entries,
                other,
            ) by {
                assert(value_of(inner, other) == value_of(rest, other));
            }
        } else {
            assert(out.drop_last() =~= entries);
            assert forall|a: int, b: int| 0 <= a < b < out.len() implies (#[trigger] out[a]).0 != (
            #[trigger] out[b]).0 by {
                if b == out.len() - 1 {
                    assert(out[a] == entries[a]);
                    if a < rest.len() {
                        assert(rest[a] == entries[a]);
                    }
                } else {
                    assert(out[a] == entries[a] && out[b] == entries[b]);
                }
            }
        }
    }
}

/// Binding a bound key keeps the number of entries and their keys.
proof fn lemma_bind_keys<V>(entries: Seq<(Seq<char>, V)>, key: Seq<char>, value: V)
    requires
        value_of(entries, key) is Some,
    ensures
        bind(entries, key, value).len() == entries.len(),
        forall|i: int|
            0 <= i < entries.len() ==> (#[trigger] bind(entries, key, value)[i]).0 == entries[i].0,
    decreases entries.len(),
{
    if entries.len() > 0 {
        let rest = entries.drop_last();
        if entries.last().0 == key {
            let out = bind(entries, key, value);
            assert forall|i: int| 0 <= i < entries.len() implies (#[trigger] out[i]).0
                == entries[i].0 by {
                if i < rest.len() {
                    assert(out[i] == rest[i]);
                }
            }
        } else {
            lemma_bind_keys(rest, key, value);
            let out = bind(entries, key, value);
            let inner = bind(rest, key, value);
            assert forall|i: int| 0 <= i < entries.len() implies (#[trigger] out[i]).0
                == entries[i].0 by {
                if i < rest.len() {
                    assert(out[i] == inner[i]);
                    assert(rest[i] == entries[i]);
                }
            }
        }
    }
}

} // verus!
