//! A map from names to values that is walked in the order of its names.
use vstd::prelude::*;
use crate::text::{
    lemma_text_less_irreflexive, lemma_text_less_transitive, lemma_text_less_trichotomy, str_eq,
    str_less, text_less,
};

verus! {

/// A map from names to values. The entries are kept sorted by name, each name
/// once, so that a walk by position visits the names in ascending order.
#[derive(Debug)]
pub struct NameMap<V> {
    entries: Vec<(String, V)>,
}

/// Whether the entries are strictly ascending by name.
pub open spec fn ascending<V>(entries: Seq<(String, V)>) -> bool {
    forall|i: int, j: int|
        0 <= i < j < entries.len() ==> text_less(
            (#[trigger] entries[i]).0@,
            (#[trigger] entries[j]).0@,
        )
}

/// Where `key` stands among the entries.
pub open spec fn index_of<V>(entries: Seq<(String, V)>, key: Seq<char>) -> int {
    choose|i: int| 0 <= i < entries.len() && (#[trigger] entries[i]).0@ == key
}

/// The map that a list of entries stands for.
pub open spec fn map_of<V>(entries: Seq<(String, V)>) -> Map<Seq<char>, V> {
    Map::new(
        |k: Seq<char>| exists|i: int| 0 <= i < entries.len() && (#[trigger] entries[i]).0@ == k,
        |k: Seq<char>| entries[index_of(entries, k)].1,
    )
}

proof fn lemma_map_of_at<V>(entries: Seq<(String, V)>, i: int)
    requires
        ascending(entries),
        0 <= i < entries.len(),
    ensures
        map_of(entries).contains_key(entries[i].0@),
        map_of(entries)[entries[i].0@] == entries[i].1,
        index_of(entries, entries[i].0@) == i,
{
    let k = entries[i].0@;
    let j = index_of(entries, k);
    assert(0 <= j < entries.len() && entries[j].0@ == k);
    lemma_text_less_irreflexive(k);
}

impl<V> NameMap<V> {
    #[verifier::type_invariant]
    closed spec fn sorted(&self) -> bool {
        ascending(self.entries@)
    }

    /// The entries in ascending order of their names.
    pub closed spec fn entries(&self) -> Seq<(String, V)> {
        self.entries@
    }

    /// The map as a mathematical map.
    pub closed spec fn view(&self) -> Map<Seq<char>, V> {
        map_of(self.entries@)
    }

    /// An empty map.
    pub fn new() -> (r: Self)
        ensures
            r@ == Map::<Seq<char>, V>::empty(),
            r.entries().len() == 0,
    {
        let r = NameMap { entries: Vec::new() };
        proof {
            assert(map_of(r.entries@) =~= Map::empty());
        }
        r
    }

    /// Where `key` stands, or where it would have to be put.
    fn find(&self, key: &str) -> (r: Result<usize, usize>)
        ensures
            match r {
                Ok(i) => i < self.entries@.len() && self.entries@[i as int].0@ == key@,
                Err(i) => i <= self.entries@.len() && (forall|j: int|
                    0 <= j < i ==> text_less((#[trigger] self.entries@[j]).0@, key@)) && (forall|
                    j: int,
                |
                    i <= j < self.entries@.len() ==> text_less(
                        key@,
                        (#[trigger] self.entries@[j]).0@,
                    )),
            },
    {
        proof {
            use_type_invariant(self);
        }
        let mut i: usize = 0;
        while i < self.entries.len()
            invariant
                ascending(self.entries@),
                i <= self.entries@.len(),
                forall|j: int| 0 <= j < i ==> text_less((#[trigger] self.entries@[j]).0@, key@),
            decreases self.entries@.len() - i,
        {
            if str_eq(self.entries[i].0.as_str(), key) {
                return Ok(i);
            }
            if str_less(key, self.entries[i].0.as_str()) {
                proof {
                    assert forall|j: int| i <= j < self.entries@.len() implies text_less(
                        key@,
                        (#[trigger] self.entries@[j]).0@,
                    ) by {
                        if j > i {
                            lemma_text_less_transitive(
                                key@,
                                self.entries@[i as int].0@,
                                self.entries@[j].0@,
                            );
                        }
                    }
                }
                return Err(i);
            }
            proof {
                lemma_text_less_trichotomy(self.entries@[i as int].0@, key@);
            }
            i += 1;
        }
        Err(i)
    }

    /// The value stored under `key`.
    pub fn get(&self, key: &str) -> (r: Option<&V>)
        ensures
            match r {
                Some(v) => self@.contains_key(key@) && *v == self@[key@],
                None => !self@.contains_key(key@),
            },
    {
        proof {
            use_type_invariant(self);
        }
        match self.find(key) {
            Ok(i) => {
                proof {
                    lemma_map_of_at(self.entries@, i as int);
                }
                Some(&self.entries[i].1)
            },
            Err(i) => {
                proof {
                    lemma_absent(self.entries@, i as int, key@);
                }
                None
            },
        }
    }

    /// Whether a value is stored under `key`.
    pub fn contains_key(&self, key: &str) -> (r: bool)
        ensures
            r == self@.contains_key(key@),
    {
        self.get(key).is_some()
    }

    /// Stores `value` under `key`, in place of what was stored there.
    pub fn insert(&mut self, key: String, value: V)
        ensures
            final(self)@ == old(self)@.insert(key@, value),
    {
        proof {
            use_type_invariant(&*self);
        }
        let ghost before = self.entries@;
        let place: Result<usize, usize> = self.find(key.as_str());
        let mut entries: Vec<(String, V)> = Vec::new();
        core::mem::swap(&mut self.entries, &mut entries);
        match place {
            Ok(i) => {
                proof {
                    lemma_map_replace(before, i as int, (key, value));
                }
                entries.set(i, (key, value));
            },
            Err(i) => {
                proof {
                    lemma_map_add(before, i as int, (key, value));
                }
                entries.insert(i, (key, value));
            },
        }
        self.entries = entries;
    }

    /// Takes out what is stored under `key`.
    pub fn remove(&mut self, key: &str) -> (r: Option<V>)
        ensures
            final(self)@ == old(self)@.remove(key@),
            match r {
                Some(v) => old(self)@.contains_key(key@) && v == old(self)@[key@],
                None => !old(self)@.contains_key(key@),
            },
    {
        proof {
            use_type_invariant(&*self);
        }
        let ghost before = self.entries@;
        match self.find(key) {
            Ok(i) => {
                proof {
                    lemma_map_remove(before, i as int);
                    lemma_map_of_at(before, i as int);
                }
                let mut entries: Vec<(String, V)> = Vec::new();
                core::mem::swap(&mut self.entries, &mut entries);
                let taken: (String, V) = entries.remove(i);
                self.entries = entries;
                Some(taken.1)
            },
            Err(i) => {
                proof {
                    lemma_absent(before, i as int, key@);
                    assert(map_of(before).remove(key@) =~= map_of(before));
                }
                None
            },
        }
    }

    /// The number of entries. A walk by position visits every name of the map
    /// once, in ascending order.
    pub fn len(&self) -> (r: usize)
        ensures
            r == self.entries().len(),
            ascending(self.entries()),
            self@ == map_of(self.entries()),
    {
        proof {
            use_type_invariant(self);
        }
        self.entries.len()
    }

    /// The name and the value at position `i` of the walk.
    pub fn entry(&self, i: usize) -> (r: (&String, &V))
        requires
            i < self.entries().len(),
        ensures
            *r.0 == self.entries()[i as int].0,
            *r.1 == self.entries()[i as int].1,
            self@.contains_key(r.0@),
            self@[r.0@] == *r.1,
    {
        proof {
            use_type_invariant(self);
            lemma_map_of_at(self.entries@, i as int);
        }
        (&self.entries[i].0, &self.entries[i].1)
    }
}

proof fn lemma_absent<V>(entries: Seq<(String, V)>, at: int, key: Seq<char>)
    requires
        0 <= at <= entries.len(),
        forall|j: int| 0 <= j < at ==> text_less((#[trigger] entries[j]).0@, key),
        forall|j: int| at <= j < entries.len() ==> text_less(key, (#[trigger] entries[j]).0@),
    ensures
        !map_of(entries).contains_key(key),
{
    lemma_text_less_irreflexive(key);
}

proof fn lemma_map_replace<V>(entries: Seq<(String, V)>, i: int, e: (String, V))
    requires
        ascending(entries),
        0 <= i < entries.len(),
        entries[i].0@ == e.0@,
    ensures
        ascending(entries.update(i, e)),
        map_of(entries.update(i, e)) == map_of(entries).insert(e.0@, e.1),
{
    let after = entries.update(i, e);
    assert(ascending(after));
    let l = map_of(after);
    let r = map_of(entries).insert(e.0@, e.1);
    assert forall|k: Seq<char>| l.contains_key(k) == r.contains_key(k) by {
        if l.contains_key(k) {
            let j = index_of(after, k);
            assert(after[j].0@ == k);
            assert(entries[j].0@ == k);
        }
        if r.contains_key(k) {
            if k == e.0@ {
                assert(after[i].0@ == k);
            } else {
                let j = index_of(entries, k);
                assert(entries[j].0@ == k);
                assert(after[j].0@ == k);
            }
        }
    }
    assert forall|k: Seq<char>| l.contains_key(k) implies l[k] == r[k] by {
        let j = index_of(after, k);
        assert(after[j].0@ == k);
        lemma_map_of_at(after, j);
        lemma_map_of_at(entries, j);
        lemma_map_of_at(entries, i);
    }
    assert(l =~= r);
}

proof fn lemma_map_remove<V>(entries: Seq<(String, V)>, i: int)
    requires
        ascending(entries),
        0 <= i < entries.len(),
    ensures
        ascending(entries.remove(i)),
        map_of(entries.remove(i)) == map_of(entries).remove(entries[i].0@),
{
    let key = entries[i].0@;
    let after = entries.remove(i);
    assert forall|a: int, b: int| 0 <= a < b < after.len() implies text_less(
        (#[trigger] after[a]).0@,
        (#[trigger] after[b]).0@,
    ) by {
        let x = if a < i { a } else { a + 1 };
        let y = if b < i { b } else { b + 1 };
        assert(after[a] == entries[x] && after[b] == entries[y]);
    }
    let l = map_of(after);
    let r = map_of(entries).remove(key);
    lemma_text_less_irreflexive(key);
    assert forall|k: Seq<char>| l.contains_key(k) == r.contains_key(k) by {
        if l.contains_key(k) {
            let j = index_of(after, k);
            assert(after[j].0@ == k);
            let x = if j < i { j } else { j + 1 };
            assert(entries[x].0@ == k);
        }
        if r.contains_key(k) {
            let j = index_of(entries, k);
            assert(entries[j].0@ == k);
            if j < i {
                assert(after[j].0@ == k);
            } else {
                assert(after[j - 1].0@ == k);
            }
        }
    }
    assert forall|k: Seq<char>| l.contains_key(k) implies l[k] == r[k] by {
        let j = index_of(after, k);
        assert(after[j].0@ == k);
        lemma_map_of_at(after, j);
        if j < i {
            lemma_map_of_at(entries, j);
        } else {
            lemma_map_of_at(entries, j + 1);
        }
    }
    assert(l =~= r);
}

proof fn lemma_map_add<V>(entries: Seq<(String, V)>, i: int, e: (String, V))
    requires
        ascending(entries),
        0 <= i <= entries.len(),
        forall|j: int| 0 <= j < i ==> text_less((#[trigger] entries[j]).0@, e.0@),
        forall|j: int| i <= j < entries.len() ==> text_less(e.0@, (#[trigger] entries[j]).0@),
    ensures
        ascending(entries.insert(i, e)),
        map_of(entries.insert(i, e)) == map_of(entries).insert(e.0@, e.1),
{
    let after = entries.insert(i, e);
    assert forall|a: int, b: int| 0 <= a < b < after.len() implies text_less(
        (#[trigger] after[a]).0@,
        (#[trigger] after[b]).0@,
    ) by {
        let x = if a < i { entries[a] } else if a == i { e } else { entries[a - 1] };
        let y = if b < i { entries[b] } else if b == i { e } else { entries[b - 1] };
        assert(after[a] == x && after[b] == y);
    }
    let l = map_of(after);
    let r = map_of(entries).insert(e.0@, e.1);
    lemma_text_less_irreflexive(e.0@);
    assert forall|k: Seq<char>| l.contains_key(k) == r.contains_key(k) by {
        if l.contains_key(k) {
            let j = index_of(after, k);
            assert(after[j].0@ == k);
            if j < i {
                assert(entries[j].0@ == k);
            } else if j > i {
                assert(entries[j - 1].0@ == k);
            }
        }
        if r.contains_key(k) {
            if k == e.0@ {
                assert(after[i].0@ == k);
            } else {
                let j = index_of(entries, k);
                assert(entries[j].0@ == k);
                if j < i {
                    assert(after[j].0@ == k);
                } else {
                    assert(after[j + 1].0@ == k);
                }
            }
        }
    }
    assert forall|k: Seq<char>| l.contains_key(k) implies l[k] == r[k] by {
        let j = index_of(after, k);
        assert(after[j].0@ == k);
        lemma_map_of_at(after, j);
        if j < i {
            lemma_map_of_at(entries, j);
        } else if j > i {
            lemma_map_of_at(entries, j - 1);
        }
    }
    assert(l =~= r);
}

/// What is put under a key is what is found under it; other keys stay.
pub proof fn law_inserted_keys_are_found<V>(
    map: &mut NameMap<V>,
    key: String,
    name: &str,
    value: V,
    after: NameMap<V>,
    found: Option<&V>,
    other: &str,
    before_other: Option<&V>,
    after_other: Option<&V>,
)
    requires
        name@ == key@,
        call_ensures(NameMap::<V>::get, (&*old(map), other), before_other),
        call_ensures(NameMap::<V>::insert, (map, key, value), ()),
        *final(map) == after,
        call_ensures(NameMap::<V>::get, (&after, name), found),
        call_ensures(NameMap::<V>::get, (&after, other), after_other),
    ensures
        found matches Some(v) && *v == value,
        other@ != name@ ==> (after_other is Some <==> before_other is Some),
        other@ != name@ ==> (after_other matches Some(v) ==> *v == *before_other->0),
{
}

/// What is removed is handed back and no longer found; other keys stay.
pub proof fn law_removed_keys_are_gone<V>(
    map: &mut NameMap<V>,
    name: &str,
    r: Option<V>,
    after: NameMap<V>,
    before: Option<&V>,
    found: Option<&V>,
    other: &str,
    before_other: Option<&V>,
    after_other: Option<&V>,
)
    requires
        call_ensures(NameMap::<V>::get, (&*old(map), name), before),
        call_ensures(NameMap::<V>::get, (&*old(map), other), before_other),
        call_ensures(NameMap::<V>::remove, (map, name), r),
        *final(map) == after,
        call_ensures(NameMap::<V>::get, (&after, name), found),
        call_ensures(NameMap::<V>::get, (&after, other), after_other),
    ensures
        found is None,
        r is Some <==> before is Some,
        r matches Some(v) ==> v == *before->0,
        other@ != name@ ==> (after_other is Some <==> before_other is Some),
        other@ != name@ ==> (after_other matches Some(v) ==> *v == *before_other->0),
{
}

/// A key is there exactly where something is found under it.
pub proof fn law_keys_are_told<V>(map: NameMap<V>, name: &str, has: bool, found: Option<&V>)
    requires
        call_ensures(NameMap::<V>::contains_key, (&map, name), has),
        call_ensures(NameMap::<V>::get, (&map, name), found),
    ensures
        has <==> found is Some,
{
}

} // verus!
