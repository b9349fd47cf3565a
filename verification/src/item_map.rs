//! A map from item keys to values, kept as a short list of entries in the
//! order in which the keys were first seen. No key occurs twice.

use vstd::prelude::*;

verus! {

struct Entry<V> {
    key: String,
    value: V,
}

/// A map keyed by item text. Its view maps each key's characters to the deep
/// view of the value stored under it.
pub struct ItemMap<V> {
    entries: Vec<Entry<V>>,
}

spec fn holds_at<V>(entries: Seq<Entry<V>>, key: Seq<char>, i: int) -> bool {
    0 <= i < entries.len() && entries[i].key@ == key
}

spec fn slot_of<V>(entries: Seq<Entry<V>>, key: Seq<char>) -> int {
    choose|i: int| holds_at(entries, key, i)
}

spec fn distinct_keys<V>(entries: Seq<Entry<V>>) -> bool {
    forall|i: int, j: int|
        0 <= i < entries.len() && 0 <= j < entries.len() && i != j ==> entries[i].key@
            != entries[j].key@
}

spec fn model_of<V: DeepView>(entries: Seq<Entry<V>>) -> Map<Seq<char>, V::V> {
    Map::new(
        |k: Seq<char>| exists|i: int| holds_at(entries, k, i),
        |k: Seq<char>| entries[slot_of(entries, k)].value.deep_view(),
    )
}

proof fn lemma_model_at<V: DeepView>(entries: Seq<Entry<V>>, i: int)
    requires
        distinct_keys(entries),
        0 <= i < entries.len(),
    ensures
        model_of(entries).contains_key(entries[i].key@),
        model_of(entries)[entries[i].key@] == entries[i].value.deep_view(),
{
    let k = entries[i].key@;
    assert(holds_at(entries, k, i));
    assert(holds_at(entries, k, slot_of(entries, k)));
}

proof fn lemma_model_absent<V: DeepView>(entries: Seq<Entry<V>>, key: Seq<char>)
    requires
        forall|i: int| 0 <= i < entries.len() ==> entries[i].key@ != key,
    ensures
        !model_of(entries).contains_key(key),
{
    assert forall|i: int| !holds_at(entries, key, i) by {}
}

proof fn lemma_model_push<V: DeepView>(entries: Seq<Entry<V>>, e: Entry<V>)
    requires
        distinct_keys(entries),
        forall|i: int| 0 <= i < entries.len() ==> entries[i].key@ != e.key@,
    ensures
        distinct_keys(entries.push(e)),
        model_of(entries.push(e)) == model_of(entries).insert(e.key@, e.value.deep_view()),
{
    let after = entries.push(e);
    let n = entries.len() as int;
    assert(distinct_keys(after));
    assert forall|k: Seq<char>| #[trigger]
        model_of(after).contains_key(k) == model_of(entries).insert(
            e.key@,
            e.value.deep_view(),
        ).contains_key(k) by {
        if k == e.key@ {
            assert(holds_at(after, k, n));
        } else {
            if model_of(after).contains_key(k) {
                let i = choose|i: int| holds_at(after, k, i);
                assert(holds_at(entries, k, i));
            }
            if model_of(entries).contains_key(k) {
                let i = choose|i: int| holds_at(entries, k, i);
                assert(holds_at(after, k, i));
            }
        }
    }
    assert forall|k: Seq<char>| #[trigger] model_of(after).contains_key(k) implies model_of(
        after,
    )[k] == model_of(entries).insert(e.key@, e.value.deep_view())[k] by {
        let i = slot_of(after, k);
        assert(holds_at(after, k, i));
        lemma_model_at(after, i);
        if k != e.key@ {
            assert(holds_at(entries, k, i));
            lemma_model_at(entries, i);
        }
    }
    assert(model_of(after) =~= model_of(entries).insert(e.key@, e.value.deep_view()));
}

proof fn lemma_model_update<V: DeepView>(entries: Seq<Entry<V>>, i: int, e: Entry<V>)
    requires
        distinct_keys(entries),
        0 <= i < entries.len(),
        e.key@ == entries[i].key@,
    ensures
        distinct_keys(entries.update(i, e)),
        model_of(entries.update(i, e)) == model_of(entries).insert(e.key@, e.value.deep_view()),
{
    let after = entries.update(i, e);
    assert(distinct_keys(after));
    assert forall|k: Seq<char>| #[trigger]
        model_of(after).contains_key(k) == model_of(entries).insert(
            e.key@,
            e.value.deep_view(),
        ).contains_key(k) by {
        if k == e.key@ {
            assert(holds_at(after, k, i));
        } else {
            if model_of(after).contains_key(k) {
                let j = choose|j: int| holds_at(after, k, j);
                assert(holds_at(entries, k, j));
            }
            if model_of(entries).contains_key(k) {
                let j = choose|j: int| holds_at(entries, k, j);
                assert(holds_at(after, k, j));
            }
        }
    }
    assert forall|k: Seq<char>| #[trigger] model_of(after).contains_key(k) implies model_of(
        after,
    )[k] == model_of(entries).insert(e.key@, e.value.deep_view())[k] by {
        let j = slot_of(after, k);
        assert(holds_at(after, k, j));
        lemma_model_at(after, j);
        if k != e.key@ {
            assert(holds_at(entries, k, j));
            lemma_model_at(entries, j);
        }
    }
    assert(model_of(after) =~= model_of(entries).insert(e.key@, e.value.deep_view()));
}

impl<V: DeepView> View for ItemMap<V> {
    type V = Map<Seq<char>, V::V>;

    closed spec fn view(&self) -> Map<Seq<char>, V::V> {
        model_of(self.entries@)
    }
}

impl<V: DeepView> DeepView for ItemMap<V> {
    type V = Map<Seq<char>, V::V>;

    open spec fn deep_view(&self) -> Map<Seq<char>, V::V> {
        self@
    }
}

impl<V> ItemMap<V> {
    #[verifier::type_invariant]
    spec fn well_formed(self) -> bool {
        distinct_keys(self.entries@)
    }
}

impl<V: DeepView> ItemMap<V> {
    /// The empty map.
    pub fn new() -> (r: Self)
        ensures
            r@ == Map::<Seq<char>, V::V>::empty(),
    {
        let r = ItemMap { entries: Vec::new() };
        proof {
            lemma_model_absent::<V>(r.entries@, seq![]);
            assert(r@ =~= Map::<Seq<char>, V::V>::empty());
        }
        r
    }

    fn find(&self, key: &str) -> (r: Option<usize>)
        ensures
            match r {
                Some(i) => holds_at(self.entries@, key@, i as int),
                None => forall|i: int| 0 <= i < self.entries.len() ==> self.entries[i].key@ != key@,
            },
    {
        let wanted = key.to_owned();
        let mut i: usize = 0;
        while i < self.entries.len()
            invariant
                i <= self.entries.len(),
                wanted@ == key@,
                forall|j: int| 0 <= j < i ==> self.entries[j].key@ != key@,
            decreases self.entries.len() - i,
        {
            if self.entries[i].key == wanted {
                return Some(i);
            }
            i += 1;
        }
        None
    }

    /// Whether a value is stored under the key.
    pub fn contains_key(&self, key: &str) -> (r: bool)
        ensures
            r == self@.contains_key(key@),
    {
        proof {
            use_type_invariant(self);
        }
        match self.find(key) {
            Some(i) => {
                proof {
                    lemma_model_at(self.entries@, i as int);
                }
                true
            },
            None => {
                proof {
                    lemma_model_absent(self.entries@, key@);
                }
                false
            },
        }
    }

    /// The value stored under the key, if any.
    pub fn get(&self, key: &str) -> (r: Option<&V>)
        ensures
            match r {
                Some(v) => self@.contains_key(key@) && v.deep_view() == self@[key@],
                None => !self@.contains_key(key@),
            },
    {
        proof {
            use_type_invariant(self);
        }
        match self.find(key) {
            Some(i) => {
                proof {
                    lemma_model_at(self.entries@, i as int);
                }
                Some(&self.entries[i].value)
            },
            None => {
                proof {
                    lemma_model_absent(self.entries@, key@);
                }
                None
            },
        }
    }

    /// Stores the value under the key, in place of any value already there.
    pub fn insert(&mut self, key: String, value: V)
        ensures
            final(self)@ == old(self)@.insert(key@, value.deep_view()),
    {
        proof {
            use_type_invariant(&*self);
        }
        let found = self.find(key.as_str());
        let entry = Entry { key, value };
        match found {
            Some(i) => {
                proof {
                    lemma_model_update(self.entries@, i as int, entry);
                }
                let mut entries: Vec<Entry<V>> = Vec::new();
                core::mem::swap(&mut self.entries, &mut entries);
                entries.set(i, entry);
                core::mem::swap(&mut self.entries, &mut entries);
            },
            None => {
                proof {
                    lemma_model_push(self.entries@, entry);
                }
                let mut entries: Vec<Entry<V>> = Vec::new();
                core::mem::swap(&mut self.entries, &mut entries);
                entries.push(entry);
                core::mem::swap(&mut self.entries, &mut entries);
            },
        }
    }
}

/// The history stored under a key of a map of histories: empty for a key that
/// was never seen.
pub open spec fn history<A>(m: Map<Seq<char>, Seq<A>>, key: Seq<char>) -> Seq<A> {
    if m.contains_key(key) {
        m[key]
    } else {
        Seq::empty()
    }
}

/// The last element of a history, if it has one.
pub open spec fn last_of<A>(s: Seq<A>) -> Option<A> {
    if s.len() > 0 {
        Some(s.last())
    } else {
        None
    }
}

/// A history with its last element replaced; an empty history stays empty.
pub open spec fn with_last<A>(s: Seq<A>, a: A) -> Seq<A> {
    if s.len() > 0 {
        s.drop_last().push(a)
    } else {
        s
    }
}

impl<T: DeepView> ItemMap<Vec<T>> {
    /// Appends the value to the history under the key, starting a history
    /// for a key not seen before.
    pub fn push(&mut self, key: &str, value: T)
        ensures
            final(self)@ == old(self)@.insert(
                key@,
                history(old(self)@, key@).push(value.deep_view()),
            ),
    {
        proof {
            use_type_invariant(&*self);
        }
        let found = self.find(key);
        let ghost before = self.entries@;
        let mut entries: Vec<Entry<Vec<T>>> = Vec::new();
        core::mem::swap(&mut self.entries, &mut entries);
        match found {
            Some(i) => {
                let mut slot = Entry { key: key.to_owned(), value: Vec::new() };
                core::mem::swap(&mut entries[i], &mut slot);
                let ghost earlier = slot.value.deep_view();
                slot.value.push(value);
                proof {
                    lemma_model_at(before, i as int);
                    assert(slot.value.deep_view() =~= earlier.push(value.deep_view()));
                    lemma_model_update(before, i as int, slot);
                    assert(entries@ =~= before.update(i as int, entries@[i as int]));
                    assert(before.update(i as int, entries@[i as int]).update(i as int, slot)
                        =~= before.update(i as int, slot));
                }
                entries.set(i, slot);
            },
            None => {
                let mut fresh: Vec<T> = Vec::new();
                fresh.push(value);
                let entry = Entry { key: key.to_owned(), value: fresh };
                proof {
                    lemma_model_absent(before, key@);
                    assert(fresh.deep_view() =~= Seq::<T::V>::empty().push(value.deep_view()));
                    lemma_model_push(before, entry);
                }
                entries.push(entry);
            },
        }
        core::mem::swap(&mut self.entries, &mut entries);
    }

    /// The latest element of the history under the key, if there is one.
    pub fn last(&self, key: &str) -> (r: Option<&T>)
        ensures
            r.deep_view() == last_of(history(self@, key@)),
    {
        match self.get(key) {
            Some(v) => {
                if v.len() > 0 {
                    Some(&v[v.len() - 1])
                } else {
                    None
                }
            },
            None => None,
        }
    }

    /// Number of elements in the history under the key.
    pub fn count(&self, key: &str) -> (r: usize)
        ensures
            r == history(self@, key@).len(),
    {
        match self.get(key) {
            Some(v) => v.len(),
            None => 0,
        }
    }

    /// Replaces the latest element of the history under the key. Where the
    /// key has no history, or an empty one, nothing changes.
    pub fn set_last(&mut self, key: &str, value: T)
        ensures
            final(self)@ == if history(old(self)@, key@).len() > 0 {
                old(self)@.insert(key@, with_last(old(self)@[key@], value.deep_view()))
            } else {
                old(self)@
            },
    {
        proof {
            use_type_invariant(&*self);
        }
        let found = self.find(key);
        let ghost before = self.entries@;
        match found {
            Some(i) => {
                proof {
                    lemma_model_at(before, i as int);
                }
                if self.entries[i].value.len() > 0 {
                    let mut entries: Vec<Entry<Vec<T>>> = Vec::new();
                    core::mem::swap(&mut self.entries, &mut entries);
                    let mut slot = Entry { key: key.to_owned(), value: Vec::new() };
                    core::mem::swap(&mut entries[i], &mut slot);
                    let ghost earlier = slot.value.deep_view();
                    let n = slot.value.len();
                    slot.value.set(n - 1, value);
                    proof {
                        assert(slot.value.deep_view() =~= with_last(earlier, value.deep_view()));
                        lemma_model_update(before, i as int, slot);
                        assert(entries@ =~= before.update(i as int, entries@[i as int]));
                        assert(before.update(i as int, entries@[i as int]).update(i as int, slot)
                            =~= before.update(i as int, slot));
                    }
                    entries.set(i, slot);
                    core::mem::swap(&mut self.entries, &mut entries);
                }
            },
            None => {
                proof {
                    lemma_model_absent(before, key@);
                }
            },
        }
    }
}

} // verus!
