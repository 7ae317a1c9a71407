//! A map with text keys: an association list in which no key occurs twice.
use vstd::prelude::*;

use crate::text::same;

verus! {

/// A map from texts to values, in insertion order.
#[derive(Debug)]
pub struct StrMap<V> {
    entries: Vec<(String, V)>,
}

/// Whether entry `i` has the key `k`.
pub open spec fn keyed<V>(s: Seq<(String, V)>, k: Seq<char>, i: int) -> bool {
    0 <= i < s.len() && s[i].0@ == k
}

/// Whether no key occurs twice.
pub open spec fn distinct_keys<V>(s: Seq<(String, V)>) -> bool {
    forall|i: int, j: int| 0 <= i < j < s.len() ==> #[trigger] s[i].0@ != #[trigger] s[j].0@
}

/// The map that a list of entries stands for.
pub open spec fn entry_map<V>(s: Seq<(String, V)>) -> Map<Seq<char>, V> {
    Map::new(
        |k: Seq<char>| exists|i: int| #[trigger] keyed(s, k, i),
        |k: Seq<char>| s[choose|i: int| #[trigger] keyed(s, k, i)].1,
    )
}

impl<V> View for StrMap<V> {
    type V = Map<Seq<char>, V>;

    open spec fn view(&self) -> Map<Seq<char>, V> {
        entry_map(self.list())
    }
}

/// The entry at a position is what the map holds under its key.
pub proof fn lemma_keyed<V>(s: Seq<(String, V)>, k: Seq<char>, i: int)
    requires
        distinct_keys(s),
        keyed(s, k, i),
    ensures
        entry_map(s).dom().contains(k),
        entry_map(s)[k] == s[i].1,
{
    let c = choose|j: int| #[trigger] keyed(s, k, j);
    assert(keyed(s, k, c));
    assert(c == i);
}

impl<V> StrMap<V> {
    #[verifier::type_invariant]
    spec fn inv(self) -> bool {
        distinct_keys(self.entries@)
    }

    /// The entries in insertion order.
    pub closed spec fn list(&self) -> Seq<(String, V)> {
        self.entries@
    }

    /// The map without entries.
    pub fn new() -> (r: Self)
        ensures
            r@ == Map::<Seq<char>, V>::empty(),
            r.list() == Seq::<(String, V)>::empty(),
    {
        let r = StrMap { entries: Vec::new() };
        assert(r@ =~= Map::<Seq<char>, V>::empty());
        r
    }

    /// How many entries there are.
    pub fn len(&self) -> (r: usize)
        ensures
            r == self.list().len(),
            distinct_keys(self.list()),
    {
        proof {
            use_type_invariant(self);
        }
        self.entries.len()
    }

    /// The key of the entry at a position.
    pub fn key_at(&self, i: usize) -> (r: &String)
        requires
            i < self.list().len(),
        ensures
            *r == self.list()[i as int].0,
            self@.dom().contains(r@),
    {
        proof {
            use_type_invariant(self);
            lemma_keyed(self.entries@, self.entries@[i as int].0@, i as int);
        }
        &self.entries[i].0
    }

    /// The value of the entry at a position.
    pub fn value_at(&self, i: usize) -> (r: &V)
        requires
            i < self.list().len(),
        ensures
            *r == self.list()[i as int].1,
            self@.dom().contains(self.list()[i as int].0@),
            self@[self.list()[i as int].0@] == *r,
    {
        proof {
            use_type_invariant(self);
            lemma_keyed(self.entries@, self.entries@[i as int].0@, i as int);
        }
        &self.entries[i].1
    }

    fn position(&self, key: &str) -> (r: Option<usize>)
        ensures
            match r {
                Some(i) => keyed(self.entries@, key@, i as int) && self@.dom().contains(key@)
                    && self@[key@] == self.entries@[i as int].1,
                None => !self@.dom().contains(key@) && forall|i: int|
                    !keyed(self.entries@, key@, i),
            },
    {
        let mut i: usize = 0;
        while i < self.entries.len()
            invariant
                i <= self.entries@.len(),
                forall|j: int| 0 <= j < i ==> !keyed(self.entries@, key@, j),
            decreases self.entries.len() - i,
        {
            if same(&self.entries[i].0, key) {
                proof {
                    use_type_invariant(self);
                    lemma_keyed(self.entries@, key@, i as int);
                }
                return Some(i);
            }
            i += 1;
        }
        None
    }

    /// Whether there is an entry under `key`.
    pub fn contains_key(&self, key: &str) -> (r: bool)
        ensures
            r == self@.dom().contains(key@),
    {
        match self.position(key) {
            Some(_) => true,
            None => false,
        }
    }

    /// The value under `key`.
    pub fn get(&self, key: &str) -> (r: Option<&V>)
        ensures
            match r {
                Some(v) => self@.dom().contains(key@) && *v == self@[key@],
                None => !self@.dom().contains(key@),
            },
    {
        match self.position(key) {
            Some(i) => Some(&self.entries[i].1),
            None => None,
        }
    }

    /// Puts `value` under `key`, in place of what was there.
    pub fn insert(&mut self, key: String, value: V)
        ensures
            final(self)@ == old(self)@.insert(key@, value),
    {
        let ghost before = self.entries@;
        proof {
            use_type_invariant(&*self);
        }
        match self.position(&key) {
            Some(i) => {
                let ghost after = before.update(i as int, (key, value));
                proof {
                    assert(distinct_keys(after));
                    lemma_same_insert(before, after, i as int, key, value);
                }
                let mut entries: Vec<(String, V)> = Vec::new();
                std::mem::swap(&mut self.entries, &mut entries);
                entries.set(i, (key, value));
                self.entries = entries;
            },
            None => {
                let ghost after = before.push((key, value));
                proof {
                    assert forall|a: int, b: int|
                        0 <= a < b < after.len() implies #[trigger] after[a].0@
                        != #[trigger] after[b].0@ by {
                        assert(!keyed(before, key@, a));
                    }
                    lemma_new_insert(before, after, key, value);
                }
                let mut entries: Vec<(String, V)> = Vec::new();
                std::mem::swap(&mut self.entries, &mut entries);
                entries.push((key, value));
                self.entries = entries;
            },
        }
    }

    /// Removes what is under `key`.
    pub fn remove(&mut self, key: &str)
        ensures
            final(self)@ == old(self)@.remove(key@),
    {
        let ghost before = self.entries@;
        proof {
            use_type_invariant(&*self);
        }
        match self.position(key) {
            Some(i) => {
                proof {
                    lemma_remove(before, i as int, key@);
                }
                let mut entries: Vec<(String, V)> = Vec::new();
                std::mem::swap(&mut self.entries, &mut entries);
                let _ = entries.remove(i);
                self.entries = entries;
            },
            None => {
                assert(self@ =~= self@.remove(key@));
            },
        }
    }
}

impl<V: Copy> StrMap<V> {
    /// The same map once more.
    pub fn copied(&self) -> (r: Self)
        ensures
            r.list() == self.list(),
            r@ == self@,
    {
        proof {
            use_type_invariant(self);
        }
        let mut entries: Vec<(String, V)> = Vec::new();
        let mut i: usize = 0;
        while i < self.entries.len()
            invariant
                i <= self.entries@.len(),
                entries@ == self.entries@.take(i as int),
            decreases self.entries.len() - i,
        {
            entries.push((self.entries[i].0.clone(), self.entries[i].1));
            assert(entries@ =~= self.entries@.take(i + 1));
            i += 1;
        }
        assert(entries@ =~= self.entries@);
        StrMap { entries }
    }
}

impl<V: Clone> Clone for StrMap<V> {
    fn clone(&self) -> (r: Self)
        ensures
            r.list().len() == self.list().len(),
            forall|i: int|
                0 <= i < r.list().len() ==> (#[trigger] r.list()[i]).0@ == self.list()[i].0@,
    {
        proof {
            use_type_invariant(self);
        }
        let mut entries: Vec<(String, V)> = Vec::new();
        let mut i: usize = 0;
        while i < self.entries.len()
            invariant
                i <= self.entries@.len(),
                entries@.len() == i,
                forall|k: int| 0 <= k < i ==> (#[trigger] entries@[k]).0@ == self.entries@[k].0@,
            decreases self.entries.len() - i,
        {
            entries.push((self.entries[i].0.clone(), self.entries[i].1.clone()));
            i += 1;
        }
        assert forall|a: int, b: int| 0 <= a < b < entries@.len() implies #[trigger] entries@[a].0@
            != #[trigger] entries@[b].0@ by {
            assert(self.entries@[a].0@ != self.entries@[b].0@);
        }
        StrMap { entries }
    }
}

proof fn lemma_same_insert<V>(
    before: Seq<(String, V)>,
    after: Seq<(String, V)>,
    at: int,
    key: String,
    value: V,
)
    requires
        distinct_keys(before),
        distinct_keys(after),
        keyed(before, key@, at),
        after == before.update(at, (key, value)),
    ensures
        entry_map(after) == entry_map(before).insert(key@, value),
{
    let a = entry_map(after);
    let b = entry_map(before).insert(key@, value);
    lemma_keyed(after, key@, at);
    assert forall|k: Seq<char>|
        #![trigger a.dom().contains(k)]
        #![trigger b.dom().contains(k)]
        #![trigger a[k]]
        #![trigger b[k]]
        a.dom().contains(k) == b.dom().contains(k) && (a.dom().contains(k) ==> a[k] == b[k]) by {
        if k != key@ {
            if exists|i: int| #[trigger] keyed(before, k, i) {
                let i = choose|i: int| #[trigger] keyed(before, k, i);
                assert(keyed(after, k, i));
                lemma_keyed(before, k, i);
                lemma_keyed(after, k, i);
            }
            if exists|i: int| #[trigger] keyed(after, k, i) {
                let i = choose|i: int| #[trigger] keyed(after, k, i);
                assert(keyed(before, k, i));
                lemma_keyed(before, k, i);
            }
        }
    }
    assert(a.dom() =~= b.dom());
    assert(a =~= b);
}

proof fn lemma_new_insert<V>(
    before: Seq<(String, V)>,
    after: Seq<(String, V)>,
    key: String,
    value: V,
)
    requires
        distinct_keys(before),
        distinct_keys(after),
        after == before.push((key, value)),
    ensures
        entry_map(after) == entry_map(before).insert(key@, value),
{
    let a = entry_map(after);
    let b = entry_map(before).insert(key@, value);
    assert(keyed(after, key@, before.len() as int));
    lemma_keyed(after, key@, before.len() as int);
    assert forall|k: Seq<char>|
        #![trigger a.dom().contains(k)]
        #![trigger b.dom().contains(k)]
        #![trigger a[k]]
        #![trigger b[k]]
        a.dom().contains(k) == b.dom().contains(k) && (a.dom().contains(k) ==> a[k] == b[k]) by {
        if k != key@ {
            if exists|i: int| #[trigger] keyed(before, k, i) {
                let i = choose|i: int| #[trigger] keyed(before, k, i);
                assert(keyed(after, k, i));
                lemma_keyed(before, k, i);
                lemma_keyed(after, k, i);
            }
            if exists|i: int| #[trigger] keyed(after, k, i) {
                let i = choose|i: int| #[trigger] keyed(after, k, i);
                assert(keyed(before, k, i));
                lemma_keyed(before, k, i);
            }
        }
    }
    assert(a.dom() =~= b.dom());
    assert(a =~= b);
}

proof fn lemma_remove<V>(before: Seq<(String, V)>, at: int, key: Seq<char>)
    requires
        distinct_keys(before),
        keyed(before, key, at),
    ensures
        distinct_keys(before.remove(at)),
        entry_map(before.remove(at)) == entry_map(before).remove(key),
{
    let after = before.remove(at);
    assert forall|i: int, j: int| 0 <= i < j < after.len() implies #[trigger] after[i].0@
        != #[trigger] after[j].0@ by {
        let i2 = if i < at { i } else { i + 1 };
        let j2 = if j < at { j } else { j + 1 };
        assert(after[i] == before[i2] && after[j] == before[j2]);
    }
    let a = entry_map(after);
    let b = entry_map(before).remove(key);
    assert forall|k: Seq<char>|
        #![trigger a.dom().contains(k)]
        #![trigger b.dom().contains(k)]
        #![trigger a[k]]
        #![trigger b[k]]
        a.dom().contains(k) == b.dom().contains(k) && (a.dom().contains(k) ==> a[k] == b[k]) by {
        if exists|i: int| #[trigger] keyed(after, k, i) {
            let i = choose|i: int| #[trigger] keyed(after, k, i);
            let i2 = if i < at { i } else { i + 1 };
            assert(keyed(before, k, i2));
            lemma_keyed(before, k, i2);
            lemma_keyed(after, k, i);
            assert(before[i2].0@ != before[at].0@) by {
                if i2 < at {
                } else {
                    assert(before[at].0@ != before[i2].0@);
                }
            }
        }
        if k != key && exists|i: int| #[trigger] keyed(before, k, i) {
            let i = choose|i: int| #[trigger] keyed(before, k, i);
            let i2 = if i < at { i } else { i - 1 };
            assert(keyed(after, k, i2));
            lemma_keyed(before, k, i);
            lemma_keyed(after, k, i2);
        }
    }
    assert(a.dom() =~= b.dom());
    assert(a =~= b);
}

} // verus!
