use vstd::prelude::*;

use std::sync::Arc;

verus! {

/// The value stored under `name`: the first entry with that name.
pub open spec fn lookup<V>(entries: Seq<(Seq<char>, V)>, name: Seq<char>) -> Option<V>
    decreases entries.len(),
{
    if entries.len() == 0 {
        None
    } else if entries[0].0 == name {
        Some(entries[0].1)
    } else {
        lookup(entries.drop_first(), name)
    }
}

proof fn lemma_lookup_after_prefix<V>(entries: Seq<(Seq<char>, V)>, i: int, name: Seq<char>)
    requires
        0 <= i <= entries.len(),
        forall|j: int| 0 <= j < i ==> (#[trigger] entries[j]).0 != name,
    ensures
        lookup(entries, name) == lookup(entries.subrange(i, entries.len() as int), name),
    decreases i,
{
    if i > 0 {
        assert(entries.drop_first().subrange(i - 1, entries.drop_first().len() as int) =~= entries.subrange(
            i,
            entries.len() as int,
        ));
        lemma_lookup_after_prefix(entries.drop_first(), i - 1, name);
    } else {
        assert(entries.subrange(0, entries.len() as int) =~= entries);
    }
}

proof fn lemma_lookup_update<V>(entries: Seq<(Seq<char>, V)>, i: int, name: Seq<char>, value: V, key: Seq<char>)
    requires
        0 <= i < entries.len(),
        entries[i].0 == name,
        forall|j: int| 0 <= j < i ==> (#[trigger] entries[j]).0 != name,
    ensures
        lookup(entries.update(i, (name, value)), key) == if key == name {
            Some(value)
        } else {
            lookup(entries, key)
        },
    decreases i,
{
    let updated = entries.update(i, (name, value));
    if i > 0 {
        assert(entries[0].0 != name);
        assert(updated[0] == entries[0]);
        assert(updated.drop_first() =~= entries.drop_first().update(i - 1, (name, value)));
        assert forall|j: int| 0 <= j < i - 1 implies (#[trigger] entries.drop_first()[j]).0 != name by {
            assert(entries.drop_first()[j] == entries[j + 1]);
        }
        lemma_lookup_update(entries.drop_first(), i - 1, name, value, key);
    } else {
        assert(updated.drop_first() =~= entries.drop_first());
    }
}

proof fn lemma_lookup_push<V>(entries: Seq<(Seq<char>, V)>, name: Seq<char>, value: V, key: Seq<char>)
    requires
        forall|j: int| 0 <= j < entries.len() ==> (#[trigger] entries[j]).0 != name,
    ensures
        lookup(entries.push((name, value)), key) == if key == name {
            Some(value)
        } else {
            lookup(entries, key)
        },
    decreases entries.len(),
{
    let pushed = entries.push((name, value));
    if entries.len() > 0 {
        assert(entries[0].0 != name);
        assert(pushed[0] == entries[0]);
        assert(pushed.drop_first() =~= entries.drop_first().push((name, value)));
        assert forall|j: int| 0 <= j < entries.drop_first().len() implies (
        #[trigger] entries.drop_first()[j]).0 != name by {
            assert(entries.drop_first()[j] == entries[j + 1]);
        }
        lemma_lookup_push(entries.drop_first(), name, value, key);
    } else {
        assert(pushed.drop_first() =~= Seq::<(Seq<char>, V)>::empty());
        assert(lookup(pushed.drop_first(), key) is None);
    }
}

/// Where an asset requested by name comes from.
pub enum Fetch<V> {
    /// Loaded before: the shared asset.
    Cached(Arc<V>),
    /// Not loaded yet: the file to load it from.
    Load(String),
}

/// Shared assets by name: each is loaded once and then handed out again.
pub struct AssetCache<V> {
    entries: Vec<(String, Arc<V>)>,
}

impl<V> AssetCache<V> {
    pub closed spec fn entries(&self) -> Seq<(Seq<char>, V)> {
        Seq::new(self.entries@.len(), |i: int| (self.entries@[i].0@, *self.entries@[i].1))
    }

    /// The asset stored under `name`, if any.
    pub open spec fn spec_get(&self, name: Seq<char>) -> Option<V> {
        lookup(self.entries(), name)
    }

    pub fn new() -> (r: Self)
        ensures
            forall|name: Seq<char>| #[trigger] r.spec_get(name) is None,
    {
        let r = AssetCache { entries: Vec::new() };
        assert(r.entries() =~= Seq::<(Seq<char>, V)>::empty());
        r
    }

    fn position(&self, name: &str) -> (r: Option<usize>)
        ensures
            match r {
                Some(i) => i < self.entries().len() && self.entries()[i as int].0 == name@ && forall|j: int|
                    0 <= j < i ==> (#[trigger] self.entries()[j]).0 != name@,
                None => forall|j: int| 0 <= j < self.entries().len() ==> (#[trigger] self.entries()[j]).0 != name@,
            },
    {
        let key = name.to_owned();
        let mut i: usize = 0;
        while i < self.entries.len()
            invariant
                i <= self.entries@.len(),
                key@ == name@,
                forall|j: int| 0 <= j < i ==> (#[trigger] self.entries()[j]).0 != name@,
            decreases self.entries@.len() - i,
        {
            if self.entries[i].0 == key {
                return Some(i);
            }
            i = i + 1;
        }
        None
    }

    /// The asset stored under `name`, shared.
    pub fn get(&self, name: &str) -> (r: Option<Arc<V>>)
        ensures
            match self.spec_get(name@) {
                Some(v) => r matches Some(a) && *a == v,
                None => r is None,
            },
    {
        match self.position(name) {
            Some(i) => {
                proof {
                    lemma_lookup_after_prefix(self.entries(), i as int, name@);
                    let rest = self.entries().subrange(i as int, self.entries().len() as int);
                    assert(rest[0] == self.entries()[i as int]);
                }
                Some(self.entries[i].1.clone())
            },
            None => {
                proof {
                    lemma_lookup_after_prefix(self.entries(), self.entries().len() as int, name@);
                }
                None
            },
        }
    }

    /// Stores `value` under `name`, in place of what was stored there.
    pub fn insert(&mut self, name: &str, value: Arc<V>)
        ensures
            forall|key: Seq<char>|
                #[trigger] final(self).spec_get(key) == if key == name@ {
                    Some(*value)
                } else {
                    old(self).spec_get(key)
                },
    {
        let ghost before = self.entries();
        match self.position(name) {
            Some(i) => {
                self.entries.set(i, (name.to_owned(), value));
                assert(self.entries() =~= before.update(i as int, (name@, *value)));
                assert forall|key: Seq<char>| #[trigger] self.spec_get(key) == if key == name@ {
                    Some(*value)
                } else {
                    lookup(before, key)
                } by {
                    lemma_lookup_update(before, i as int, name@, *value, key);
                }
            },
            None => {
                self.entries.push((name.to_owned(), value));
                assert(self.entries() =~= before.push((name@, *value)));
                assert forall|key: Seq<char>| #[trigger] self.spec_get(key) == if key == name@ {
                    Some(*value)
                } else {
                    lookup(before, key)
                } by {
                    lemma_lookup_push(before, name@, *value, key);
                }
            },
        }
    }
}

} // verus!
