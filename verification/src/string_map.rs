//! A map from strings that remembers the order in which its keys came.
use vstd::prelude::*;
use crate::text::same;

verus! {

/// A map from strings to values. Its entries stand in the order in which their
/// keys were first inserted.
pub struct StringMap<V> {
    entries: Vec<(String, V)>,
}

/// Whether `items` has an entry for `key`.
pub open spec fn has_key<V>(items: Seq<(Seq<char>, V)>, key: Seq<char>) -> bool {
    exists|i: int| 0 <= i < items.len() && (#[trigger] items[i]).0 == key
}

/// Where the entry for `key` stands in `items`.
pub open spec fn key_place<V>(items: Seq<(Seq<char>, V)>, key: Seq<char>) -> int {
    choose|i: int| 0 <= i < items.len() && (#[trigger] items[i]).0 == key
}

/// Whether no key occurs twice in `items`.
pub open spec fn distinct_keys<V>(items: Seq<(Seq<char>, V)>) -> bool {
    forall|i: int, j: int|
        0 <= i < j < items.len() ==> (#[trigger] items[i]).0 != (#[trigger] items[j]).0
}

/// The map that a sequence of entries stands for.
pub open spec fn map_of<V>(items: Seq<(Seq<char>, V)>) -> Map<Seq<char>, V> {
    Map::new(|k: Seq<char>| has_key(items, k), |k: Seq<char>| items[key_place(items, k)].1)
}

/// `items` after `value` was stored under `key`.
pub open spec fn stored<V>(items: Seq<(Seq<char>, V)>, key: Seq<char>, value: V) -> Seq<
    (Seq<char>, V),
> {
    if has_key(items, key) {
        items.update(key_place(items, key), (key, value))
    } else {
        items.push((key, value))
    }
}

/// Storing a value under a key changes the map at that key alone, and keeps the
/// keys distinct.
pub proof fn lemma_stored<V>(items: Seq<(Seq<char>, V)>, key: Seq<char>, value: V)
    requires
        distinct_keys(items),
    ensures
        distinct_keys(stored(items, key, value)),
        map_of(stored(items, key, value)) == map_of(items).insert(key, value),
{
    let after = stored(items, key, value);
    let at = if has_key(items, key) { key_place(items, key) } else { items.len() as int };
    assert(after[at] == (key, value));
    assert forall|k: Seq<char>| has_key(after, k) == (has_key(items, k) || k == key) by {
        if has_key(items, k) && k != key {
            let i = key_place(items, k);
            assert(after[i] == items[i]);
        }
        if has_key(after, k) && k != key {
            let i = key_place(after, k);
            assert(after[i] == items[i]);
        }
    }
    assert forall|k: Seq<char>| has_key(after, k) implies map_of(after)[k] == map_of(items).insert(
        key,
        value,
    )[k] by {
        let i = key_place(after, k);
        if k != key {
            assert(after[i] == items[i]);
            let j = key_place(items, k);
            assert(i == j);
        } else {
            assert(i == at);
        }
    }
    assert(map_of(after) =~= map_of(items).insert(key, value));
}

/// The entries with `f` applied to each value.
pub open spec fn mapped<V, W>(items: Seq<(Seq<char>, V)>, f: spec_fn(V) -> W) -> Seq<
    (Seq<char>, W),
> {
    items.map_values(|e: (Seq<char>, V)| (e.0, f(e.1)))
}

/// Applying a function to the values before or after storing one more makes no
/// difference.
pub proof fn lemma_stored_mapped<V, W>(
    items: Seq<(Seq<char>, V)>,
    key: Seq<char>,
    value: V,
    f: spec_fn(V) -> W,
)
    requires
        distinct_keys(items),
    ensures
        mapped(stored(items, key, value), f) == stored(mapped(items, f), key, f(value)),
{
    let after = mapped(items, f);
    if has_key(items, key) {
        let at = key_place(items, key);
        assert(after[at].0 == key);
        let place = key_place(after, key);
        assert(items[place].0 == key);
        assert(place == at);
    } else if has_key(after, key) {
        let place = key_place(after, key);
        assert(items[place].0 == key);
    }
    assert(mapped(stored(items, key, value), f) =~= stored(after, key, f(value)));
}

/// `items` without the entry for `key`.
pub open spec fn dropped<V>(items: Seq<(Seq<char>, V)>, key: Seq<char>) -> Seq<(Seq<char>, V)> {
    if has_key(items, key) {
        items.remove(key_place(items, key))
    } else {
        items
    }
}

/// Dropping a key takes it out of the map and leaves the rest, with the keys
/// still distinct.
pub proof fn lemma_dropped<V>(items: Seq<(Seq<char>, V)>, key: Seq<char>)
    requires
        distinct_keys(items),
    ensures
        distinct_keys(dropped(items, key)),
        map_of(dropped(items, key)) == map_of(items).remove(key),
{
    let after = dropped(items, key);
    if has_key(items, key) {
        let at = key_place(items, key);
        assert forall|k: Seq<char>| has_key(after, k) == (has_key(items, k) && k != key) by {
            if has_key(items, k) && k != key {
                let i = key_place(items, k);
                if i < at {
                    assert(after[i] == items[i]);
                } else {
                    assert(after[i - 1] == items[i]);
                }
            }
            if has_key(after, k) {
                let i = key_place(after, k);
                if i < at {
                    assert(after[i] == items[i]);
                } else {
                    assert(after[i] == items[i + 1]);
                }
            }
        }
        assert forall|k: Seq<char>| has_key(after, k) implies map_of(after)[k] == map_of(items)[k] by {
            let i = key_place(after, k);
            let j = key_place(items, k);
            if i < at {
                assert(after[i] == items[i]);
                assert(i == j);
            } else {
                assert(after[i] == items[i + 1]);
                assert(i + 1 == j);
            }
        }
    }
    assert(map_of(after) =~= map_of(items).remove(key));
}

impl<V> View for StringMap<V> {
    type V = Map<Seq<char>, V>;

    open spec fn view(&self) -> Map<Seq<char>, V> {
        map_of(self.items())
    }
}

impl<V> StringMap<V> {
    #[verifier::type_invariant]
    spec fn keys_distinct(self) -> bool {
        distinct_keys(self.items())
    }

    /// The entries in order, each key by its characters.
    pub closed spec fn items(self) -> Seq<(Seq<char>, V)> {
        self.entries@.map_values(|e: (String, V)| (e.0@, e.1))
    }

    /// A map without entries.
    pub fn new() -> (r: Self)
        ensures
            r.items() == Seq::<(Seq<char>, V)>::empty(),
            r@ == Map::<Seq<char>, V>::empty(),
    {
        let r = StringMap { entries: Vec::new() };
        assert(r.items() =~= Seq::<(Seq<char>, V)>::empty());
        assert(r@ =~= Map::<Seq<char>, V>::empty());
        r
    }

    /// The number of entries.
    pub fn len(&self) -> (n: usize)
        ensures
            n == self.items().len(),
            distinct_keys(self.items()),
    {
        proof {
            use_type_invariant(self);
        }
        self.entries.len()
    }

    /// The entries in order.
    pub fn into_entries(self) -> (r: Vec<(String, V)>)
        ensures
            r@.map_values(|e: (String, V)| (e.0@, e.1)) == self.items(),
    {
        self.entries
    }

    /// The key of the entry at `i`.
    pub fn key_at(&self, i: usize) -> (r: &String)
        requires
            i < self.items().len(),
        ensures
            r@ == self.items()[i as int].0,
    {
        &self.entries[i].0
    }

    /// The value of the entry at `i`.
    pub fn value_at(&self, i: usize) -> (r: &V)
        requires
            i < self.items().len(),
        ensures
            *r == self.items()[i as int].1,
    {
        &self.entries[i].1
    }

    fn find(&self, key: &str) -> (r: Option<usize>)
        ensures
            distinct_keys(self.items()),
            match r {
                Some(i) => i < self.entries@.len() && has_key(self.items(), key@) && i == key_place(
                    self.items(),
                    key@,
                ),
                None => !has_key(self.items(), key@),
            },
    {
        proof {
            use_type_invariant(self);
        }
        let mut i: usize = 0;
        while i < self.entries.len()
            invariant
                i <= self.entries@.len(),
                distinct_keys(self.items()),
                forall|k: int| 0 <= k < i ==> (#[trigger] self.items()[k]).0 != key@,
            decreases self.entries@.len() - i,
        {
            assert(self.items()[i as int].0 == self.entries@[i as int].0@);
            if same(self.entries[i].0.as_str(), key) {
                return Some(i);
            }
            i += 1;
        }
        None
    }

    /// The value stored under `key`.
    pub fn get(&self, key: &str) -> (r: Option<&V>)
        ensures
            match r {
                Some(v) => self@.dom().contains(key@) && *v == self@[key@],
                None => !self@.dom().contains(key@),
            },
    {
        match self.find(key) {
            Some(i) => Some(&self.entries[i].1),
            None => None,
        }
    }

    /// Whether there is an entry for `key`.
    pub fn contains_key(&self, key: &str) -> (r: bool)
        ensures
            r == self@.dom().contains(key@),
    {
        self.find(key).is_some()
    }

    /// Stores `value` under `key`. An entry that was there is overwritten in its
    /// place.
    pub fn insert(&mut self, key: String, value: V)
        ensures
            final(self).items() == stored(old(self).items(), key@, value),
            final(self)@ == old(self)@.insert(key@, value),
    {
        proof {
            use_type_invariant(&*self);
            lemma_stored(self.items(), key@, value);
        }
        let place = self.find(key.as_str());
        let ghost before = self.items();
        let mut entries: Vec<(String, V)> = Vec::new();
        std::mem::swap(&mut entries, &mut self.entries);
        match place {
            Some(i) => {
                entries.set(i, (key, value));
            },
            None => {
                entries.push((key, value));
            },
        }
        assert(entries@.map_values(|e: (String, V)| (e.0@, e.1)) =~= stored(before, key@, value));
        *self = StringMap { entries };
    }

    /// Takes out the entry for `key` and gives its value.
    pub fn remove(&mut self, key: &str) -> (r: Option<V>)
        ensures
            final(self).items() == dropped(old(self).items(), key@),
            final(self)@ == old(self)@.remove(key@),
            match r {
                Some(v) => old(self)@.dom().contains(key@) && v == old(self)@[key@],
                None => !old(self)@.dom().contains(key@),
            },
    {
        proof {
            use_type_invariant(&*self);
            lemma_dropped(self.items(), key@);
        }
        let ghost before = self.items();
        match self.find(key) {
            Some(i) => {
                let mut entries: Vec<(String, V)> = Vec::new();
                std::mem::swap(&mut entries, &mut self.entries);
                let gone = entries.remove(i);
                assert(entries@.map_values(|e: (String, V)| (e.0@, e.1)) =~= dropped(before, key@));
                *self = StringMap { entries };
                Some(gone.1)
            },
            None => None,
        }
    }
}

/// A copy of a map of texts.
pub fn copy_texts(texts: &StringMap<String>) -> (r: StringMap<String>)
    ensures
        r.items() == texts.items(),
        r@ == texts@,
{
    let mut entries: Vec<(String, String)> = Vec::new();
    let ghost items = texts.items();
    let mut i: usize = 0;
    let size: usize = texts.len();
    while i < size
        invariant
            items == texts.items(),
            size == items.len(),
            distinct_keys(items),
            i <= size,
            entries@.len() == i,
            forall|k: int| 0 <= k < i ==> (#[trigger] entries@[k]).0@ == items[k].0 && entries@[k].1
                == items[k].1,
        decreases size - i,
    {
        entries.push((texts.key_at(i).clone(), texts.value_at(i).clone()));
        i += 1;
    }
    assert(entries@.map_values(|e: (String, String)| (e.0@, e.1)) =~= items);
    StringMap { entries }
}

/// Storing a value leaves every other entry where it is; a new key comes last.
pub proof fn storing_keeps_the_order<V>(
    items: Seq<(Seq<char>, V)>,
    key: Seq<char>,
    value: V,
    i: int,
)
    requires
        0 <= i < items.len(),
    ensures
        stored(items, key, value)[i].0 == items[i].0,
        items[i].0 != key ==> stored(items, key, value)[i] == items[i],
        (forall|j: int| 0 <= j < items.len() ==> (#[trigger] items[j]).0 != key) ==> stored(
            items,
            key,
            value,
        ) == items.push((key, value)),
        (exists|j: int| 0 <= j < items.len() && (#[trigger] items[j]).0 == key) ==> stored(
            items,
            key,
            value,
        ).len() == items.len(),
{
}

/// Dropping a key leaves every other entry in its order.
pub proof fn dropping_keeps_the_order<V>(items: Seq<(Seq<char>, V)>, key: Seq<char>, i: int, j: int)
    requires
        distinct_keys(items),
        0 <= i < items.len(),
        items[i].0 == key,
    ensures
        dropped(items, key).len() == items.len() - 1,
        0 <= j < i ==> dropped(items, key)[j] == items[j],
        i < j < items.len() ==> dropped(items, key)[j - 1] == items[j],
{
    let at = key_place(items, key);
    assert(items[at].0 == key);
    assert(at == i);
}

} // verus!
