//! Sets and maps keyed by text.

use vstd::prelude::*;

use crate::text;

verus! {

// ---- sets ------------------------------------------------------------------------

/// A set of texts: those that stand in the list.
#[derive(Debug)]
pub struct NameSet {
    pub items: Vec<String>,
}

impl View for NameSet {
    type V = Set<Seq<char>>;

    open spec fn view(&self) -> Set<Seq<char>> {
        Set::new(|k: Seq<char>| in_list(self.items@, k))
    }
}

/// `k` stands in the list.
pub open spec fn in_list(items: Seq<String>, k: Seq<char>) -> bool {
    exists|i: int| 0 <= i < items.len() && (#[trigger] items[i])@ == k
}

impl NameSet {
    pub fn new() -> (s: NameSet)
        ensures
            s@ == Set::<Seq<char>>::empty(),
    {
        let s = NameSet { items: Vec::new() };
        assert(s@ =~= Set::empty());
        s
    }

    /// Whether `name` is in the set.
    pub fn contains(&self, name: &str) -> (r: bool)
        ensures
            r == self@.contains(name@),
    {
        let mut i: usize = 0;
        while i < self.items.len()
            invariant
                i <= self.items.len(),
                forall|j: int| 0 <= j < i ==> (#[trigger] self.items@[j])@ != name@,
            decreases self.items.len() - i,
        {
            if text::same_text(self.items[i].as_str(), name) {
                assert(self.items@[i as int]@ == name@);
                return true;
            }
            i += 1;
        }
        false
    }

    pub fn is_empty(&self) -> (r: bool)
        ensures
            r == (self@ == Set::<Seq<char>>::empty()),
    {
        if self.items.len() == 0 {
            assert(self@ =~= Set::empty());
            true
        } else {
            assert(self@.contains(self.items@[0]@));
            false
        }
    }

    /// Put `name` in. True when it was not in yet.
    pub fn insert(&mut self, name: String) -> (added: bool)
        ensures
            final(self)@ == old(self)@.insert(name@),
            added == !old(self)@.contains(name@),
    {
        let ghost before = *self;
        if self.contains(name.as_str()) {
            assert(self@ =~= before@.insert(name@));
            false
        } else {
            self.items.push(name);
            proof {
                assert forall|k: Seq<char>| #[trigger] self@.contains(k) <==> before@.insert(name@).contains(k) by {
                    if before@.contains(k) {
                        let j = choose|j: int| 0 <= j < before.items@.len() && (#[trigger] before.items@[j])@ == k;
                        assert(self.items@[j]@ == k);
                    }
                    if k == name@ {
                        assert(self.items@[before.items@.len() as int]@ == k);
                    }
                    if self@.contains(k) {
                        let j = choose|j: int| 0 <= j < self.items@.len() && (#[trigger] self.items@[j])@ == k;
                        if j < before.items@.len() {
                            assert(before.items@[j]@ == k);
                        }
                    }
                }
                assert(self@ =~= before@.insert(name@));
            }
            true
        }
    }

    /// Take `name` out. True when it was in.
    pub fn remove(&mut self, name: &str) -> (removed: bool)
        ensures
            final(self)@ == old(self)@.remove(name@),
            removed == old(self)@.contains(name@),
    {
        let ghost before = *self;
        let mut removed = false;
        let mut i: usize = 0;
        while i < self.items.len()
            invariant
                i <= self.items@.len(),
                forall|j: int| 0 <= j < i ==> (#[trigger] self.items@[j])@ != name@,
                forall|k: Seq<char>| k != name@ ==> (#[trigger] self@.contains(k) <==> before@.contains(k)),
                removed || self.items@ == before.items@,
                removed ==> before@.contains(name@),
            decreases self.items@.len() - i,
        {
            if text::same_text(self.items[i].as_str(), name) {
                let ghost mid = *self;
                proof {
                    if !removed {
                        assert(before.items@[i as int]@ == name@);
                    }
                }
                let _gone = self.items.remove(i);
                removed = true;
                proof {
                    assert forall|k: Seq<char>| k != name@ implies (#[trigger] self@.contains(k) <==> before@.contains(k)) by {
                        assert(mid@.contains(k) <==> before@.contains(k));
                        if mid@.contains(k) {
                            let j = choose|j: int| 0 <= j < mid.items@.len() && (#[trigger] mid.items@[j])@ == k;
                            if j < i {
                                assert(self.items@[j]@ == k);
                            } else {
                                assert(self.items@[j - 1]@ == k);
                            }
                        }
                        if self@.contains(k) {
                            let j = choose|j: int| 0 <= j < self.items@.len() && (#[trigger] self.items@[j])@ == k;
                            if j < i {
                                assert(mid.items@[j]@ == k);
                            } else {
                                assert(mid.items@[j + 1]@ == k);
                            }
                        }
                    }
                    assert forall|j: int| 0 <= j < i implies (#[trigger] self.items@[j])@ != name@ by {
                        assert(mid.items@[j]@ != name@);
                    }
                }
            } else {
                i += 1;
            }
        }
        proof {
            assert(!self@.contains(name@));
            assert(self@ =~= before@.remove(name@));
            if before@.contains(name@) && !removed {
                assert(self@.contains(name@));
            }
        }
        removed
    }

    /// Take everything out.
    pub fn clear(&mut self)
        ensures
            final(self)@ == Set::<Seq<char>>::empty(),
    {
        self.items.clear();
        assert(self@ =~= Set::empty());
    }

    /// The set with the names of the list.
    pub fn of(names: Vec<String>) -> (s: NameSet)
        ensures
            forall|k: Seq<char>| #[trigger] s@.contains(k) <==> in_list(names@, k),
    {
        NameSet { items: names }
    }

    /// Put every name of the list in.
    pub fn extend(&mut self, names: Vec<String>)
        ensures
            forall|k: Seq<char>| #[trigger]
                final(self)@.contains(k) <==> old(self)@.contains(k) || in_list(names@, k),
    {
        let ghost before = self@;
        let ghost all = names@;
        for name in it: names
            invariant
                it.seq() == all,
                forall|k: Seq<char>| #[trigger]
                    self@.contains(k) <==> before.contains(k) || in_list(
                        all.take(it.index() as int),
                        k,
                    ),
        {
            let ghost mid = self@;
            let ghost i = it.index() as int;
            let _added = self.insert(name);
            proof {
                let less = all.take(i);
                let more = all.take(i + 1);
                assert forall|k: Seq<char>| #[trigger] self@.contains(k) <==> before.contains(k) || in_list(more, k) by {
                    assert(mid.contains(k) <==> before.contains(k) || in_list(less, k));
                    if in_list(less, k) {
                        let j = choose|j: int| 0 <= j < less.len() && (#[trigger] less[j])@ == k;
                        assert(more[j]@ == k);
                    }
                    if k == name@ {
                        assert(more[i]@ == k);
                    }
                    if in_list(more, k) {
                        let j = choose|j: int| 0 <= j < more.len() && (#[trigger] more[j])@ == k;
                        if j < i {
                            assert(less[j]@ == k);
                        }
                    }
                }
            }
        }
        assert(all.take(all.len() as int) =~= all);
    }

    /// The names in the set, each once.
    pub fn names(&self) -> (r: Vec<String>)
        ensures
            forall|k: Seq<char>| #[trigger] in_list(r@, k) <==> self@.contains(k),
            forall|i: int, j: int| 0 <= i < j < r@.len() ==> (#[trigger] r@[i])@ != (#[trigger] r@[j])@,
    {
        let mut out = NameSet::new();
        let mut i: usize = 0;
        assert(out.items@.len() == 0) by {
            if out.items@.len() > 0 {
                assert(out@.contains(out.items@[0]@));
            }
        }
        while i < self.items.len()
            invariant
                i <= self.items@.len(),
                forall|k: Seq<char>| #[trigger] out@.contains(k) <==> in_list(self.items@.take(i as int), k),
                forall|a: int, b: int|
                    0 <= a < b < out.items@.len() ==> (#[trigger] out.items@[a])@ != (#[trigger] out.items@[b])@,
            decreases self.items.len() - i,
        {
            let ghost before = out;
            let ghost less = self.items@.take(i as int);
            let ghost more = self.items@.take(i + 1);
            let name = self.items[i].clone();
            if !out.contains(name.as_str()) {
                out.items.push(name);
            }
            proof {
                assert forall|k: Seq<char>| #[trigger] out@.contains(k) <==> in_list(more, k) by {
                    assert(before@.contains(k) <==> in_list(less, k));
                    if in_list(less, k) {
                        let j = choose|j: int| 0 <= j < less.len() && (#[trigger] less[j])@ == k;
                        assert(more[j]@ == k);
                        let x = choose|x: int| 0 <= x < before.items@.len() && (#[trigger] before.items@[x])@ == k;
                        assert(out.items@[x]@ == k);
                    }
                    if k == name@ {
                        assert(more[i as int]@ == k);
                        if !before@.contains(k) {
                            assert(out.items@[before.items@.len() as int]@ == k);
                        }
                    }
                    if in_list(more, k) {
                        let j = choose|j: int| 0 <= j < more.len() && (#[trigger] more[j])@ == k;
                        if j < i {
                            assert(less[j]@ == k);
                        }
                    }
                    if out@.contains(k) {
                        let x = choose|x: int| 0 <= x < out.items@.len() && (#[trigger] out.items@[x])@ == k;
                        if x < before.items@.len() {
                            assert(before.items@[x]@ == k);
                        }
                    }
                }
                assert forall|a: int, b: int| 0 <= a < b < out.items@.len() implies (#[trigger] out.items@[a])@
                    != (#[trigger] out.items@[b])@ by {
                    assert(out.items@[a] == before.items@[a]);
                    if b < before.items@.len() {
                        assert(out.items@[b] == before.items@[b]);
                    } else {
                        assert(before@.contains(before.items@[a]@));
                    }
                }
            }
            i += 1;
        }
        assert(self.items@.take(i as int) =~= self.items@);
        let r = out.items;
        assert forall|k: Seq<char>| #[trigger] in_list(r@, k) <==> self@.contains(k) by {
            assert(out@.contains(k) <==> in_list(self.items@, k));
        }
        r
    }
}

// ---- maps ------------------------------------------------------------------------

/// A map from texts: the first entry for a key is the one that counts.
#[derive(Debug)]
pub struct NameMap<V> {
    pub entries: Vec<(String, V)>,
}

/// The value of the first entry for `k`.
pub open spec fn lookup<V>(entries: Seq<(String, V)>, k: Seq<char>) -> Option<V>
    decreases entries.len(),
{
    if entries.len() == 0 {
        None
    } else if entries[0].0@ == k {
        Some(entries[0].1)
    } else {
        lookup(entries.drop_first(), k)
    }
}

impl<V> View for NameMap<V> {
    type V = Map<Seq<char>, V>;

    open spec fn view(&self) -> Map<Seq<char>, V> {
        Map::new(
            |k: Seq<char>| lookup(self.entries@, k) is Some,
            |k: Seq<char>| lookup(self.entries@, k)->0,
        )
    }
}

proof fn lemma_lookup_push<V>(entries: Seq<(String, V)>, e: (String, V), k: Seq<char>)
    ensures
        lookup(entries.push(e), k) == (match lookup(entries, k) {
            Some(v) => Some(v),
            None => if e.0@ == k {
                Some(e.1)
            } else {
                None
            },
        }),
    decreases entries.len(),
{
    let more = entries.push(e);
    if entries.len() == 0 {
        assert(more.drop_first() =~= entries);
    } else {
        assert(more.drop_first() =~= entries.drop_first().push(e));
        lemma_lookup_push(entries.drop_first(), e, k);
    }
}

/// Replacing the first entry for `name`.
proof fn lemma_lookup_update<V>(entries: Seq<(String, V)>, i: int, e: (String, V), k: Seq<char>)
    requires
        0 <= i < entries.len(),
        entries[i].0@ == e.0@,
        forall|j: int| 0 <= j < i ==> (#[trigger] entries[j]).0@ != e.0@,
    ensures
        lookup(entries.update(i, e), k) == (if k == e.0@ {
            Some(e.1)
        } else {
            lookup(entries, k)
        }),
    decreases entries.len(),
{
    let new = entries.update(i, e);
    if i == 0 {
        assert(new.drop_first() =~= entries.drop_first());
    } else {
        assert(new.drop_first() =~= entries.drop_first().update(i - 1, e));
        assert forall|j: int| 0 <= j < i - 1 implies (#[trigger] entries.drop_first()[j]).0@ != e.0@ by {
            assert(entries[j + 1].0@ != e.0@);
        }
        assert(entries[0].0@ != e.0@);
        lemma_lookup_update(entries.drop_first(), i - 1, e, k);
    }
}

/// Taking an entry out changes nothing for the other keys.
proof fn lemma_lookup_remove<V>(entries: Seq<(String, V)>, i: int, k: Seq<char>)
    requires
        0 <= i < entries.len(),
        entries[i].0@ != k,
    ensures
        lookup(entries.remove(i), k) == lookup(entries, k),
    decreases entries.len(),
{
    let new = entries.remove(i);
    if i == 0 {
        assert(new =~= entries.drop_first());
    } else {
        assert(new.drop_first() =~= entries.drop_first().remove(i - 1));
        lemma_lookup_remove(entries.drop_first(), i - 1, k);
    }
}

/// A key that no entry has is not found.
proof fn lemma_lookup_none<V>(entries: Seq<(String, V)>, k: Seq<char>)
    requires
        forall|j: int| 0 <= j < entries.len() ==> (#[trigger] entries[j]).0@ != k,
    ensures
        lookup(entries, k) is None,
    decreases entries.len(),
{
    if entries.len() > 0 {
        assert(entries[0].0@ != k);
        assert forall|j: int| 0 <= j < entries.drop_first().len() implies (#[trigger] entries.drop_first()[j]).0@
            != k by {
            assert(entries[j + 1].0@ != k);
        }
        lemma_lookup_none(entries.drop_first(), k);
    }
}

/// The first entry that has the key is found.
proof fn lemma_lookup_first<V>(entries: Seq<(String, V)>, i: int, k: Seq<char>)
    requires
        0 <= i < entries.len(),
        entries[i].0@ == k,
        forall|j: int| 0 <= j < i ==> (#[trigger] entries[j]).0@ != k,
    ensures
        lookup(entries, k) == Some(entries[i].1),
    decreases entries.len(),
{
    if i > 0 {
        assert(entries[0].0@ != k);
        assert forall|j: int| 0 <= j < i - 1 implies (#[trigger] entries.drop_first()[j]).0@ != k by {
            assert(entries[j + 1].0@ != k);
        }
        lemma_lookup_first(entries.drop_first(), i - 1, k);
    }
}

impl<V> NameMap<V> {
    pub fn new() -> (m: NameMap<V>)
        ensures
            m@ == Map::<Seq<char>, V>::empty(),
    {
        let m = NameMap { entries: Vec::new() };
        assert(m@ =~= Map::empty());
        m
    }

    /// Where the first entry for `name` stands.
    fn position(&self, name: &str) -> (r: Option<usize>)
        ensures
            match r {
                Some(i) => i < self.entries@.len() && self.entries@[i as int].0@ == name@ && forall|j: int|
                    0 <= j < i ==> (#[trigger] self.entries@[j]).0@ != name@,
                None => forall|j: int|
                    0 <= j < self.entries@.len() ==> (#[trigger] self.entries@[j]).0@ != name@,
            },
    {
        let mut i: usize = 0;
        while i < self.entries.len()
            invariant
                i <= self.entries.len(),
                forall|j: int| 0 <= j < i ==> (#[trigger] self.entries@[j]).0@ != name@,
            decreases self.entries.len() - i,
        {
            if text::same_text(self.entries[i].0.as_str(), name) {
                return Some(i);
            }
            i += 1;
        }
        None
    }

    pub fn contains_key(&self, name: &str) -> (r: bool)
        ensures
            r == self@.contains_key(name@),
    {
        match self.position(name) {
            Some(i) => {
                proof {
                    lemma_lookup_first(self.entries@, i as int, name@);
                }
                true
            },
            None => {
                proof {
                    lemma_lookup_none(self.entries@, name@);
                }
                false
            },
        }
    }

    /// The value for `name`.
    pub fn get(&self, name: &str) -> (r: Option<&V>)
        ensures
            match r {
                Some(v) => self@.contains_key(name@) && *v == self@[name@],
                None => !self@.contains_key(name@),
            },
    {
        match self.position(name) {
            Some(i) => {
                proof {
                    lemma_lookup_first(self.entries@, i as int, name@);
                }
                Some(&self.entries[i].1)
            },
            None => {
                proof {
                    lemma_lookup_none(self.entries@, name@);
                }
                None
            },
        }
    }

    /// `value` is the value for `name` from now on.
    pub fn insert(&mut self, name: String, value: V)
        ensures
            final(self)@ == old(self)@.insert(name@, value),
    {
        let ghost before = self.entries@;
        let ghost view = self@;
        match self.position(name.as_str()) {
            Some(i) => {
                self.entries[i] = (name, value);
                proof {
                    assert(self.entries@ =~= before.update(i as int, (name, value)));
                    assert forall|k: Seq<char>| #[trigger] lookup(self.entries@, k) == (if k == name@ {
                        Some(value)
                    } else {
                        lookup(before, k)
                    }) by {
                        lemma_lookup_update(before, i as int, (name, value), k);
                    }
                }
            },
            None => {
                self.entries.push((name, value));
                proof {
                    lemma_lookup_none(before, name@);
                    assert forall|k: Seq<char>| #[trigger] lookup(self.entries@, k) == (if k == name@ {
                        Some(value)
                    } else {
                        lookup(before, k)
                    }) by {
                        lemma_lookup_push(before, (name, value), k);
                    }
                }
            },
        }
        assert(self@ =~= view.insert(name@, value));
    }

    /// Take the value for `name` out.
    pub fn remove(&mut self, name: &str) -> (r: Option<V>)
        ensures
            final(self)@ == old(self)@.remove(name@),
            match r {
                Some(v) => old(self)@.contains_key(name@) && v == old(self)@[name@],
                None => !old(self)@.contains_key(name@),
            },
    {
        let ghost view = self@;
        let first = match self.position(name) {
            Some(i) => {
                proof {
                    lemma_lookup_first(self.entries@, i as int, name@);
                }
                let ghost before = self.entries@;
                let (_key, value) = self.entries.remove(i);
                proof {
                    assert forall|k: Seq<char>| k != name@ implies #[trigger] lookup(self.entries@, k) == lookup(before, k) by {
                        lemma_lookup_remove(before, i as int, k);
                    }
                }
                Some(value)
            },
            None => {
                proof {
                    lemma_lookup_none(self.entries@, name@);
                    assert(self@ =~= view.remove(name@));
                }
                return None;
            },
        };
        let ghost base = self.entries@;
        let mut i: usize = 0;
        while i < self.entries.len()
            invariant
                i <= self.entries@.len(),
                forall|j: int| 0 <= j < i ==> (#[trigger] self.entries@[j]).0@ != name@,
                forall|k: Seq<char>| k != name@ ==> #[trigger] lookup(self.entries@, k) == lookup(base, k),
            decreases self.entries@.len() - i,
        {
            if text::same_text(self.entries[i].0.as_str(), name) {
                let ghost mid = self.entries@;
                let _gone = self.entries.remove(i);
                proof {
                    assert forall|k: Seq<char>| k != name@ implies #[trigger] lookup(self.entries@, k) == lookup(base, k) by {
                        lemma_lookup_remove(mid, i as int, k);
                    }
                    assert forall|j: int| 0 <= j < i implies (#[trigger] self.entries@[j]).0@ != name@ by {
                        assert(mid[j].0@ != name@);
                    }
                }
            } else {
                i += 1;
            }
        }
        proof {
            lemma_lookup_none(self.entries@, name@);
            assert forall|k: Seq<char>| #[trigger] self@.contains_key(k) <==> view.remove(name@).contains_key(k) by {
                if k != name@ {
                    assert(lookup(self.entries@, k) == lookup(base, k));
                }
            }
            assert(self@ =~= view.remove(name@));
        }
        first
    }

    /// Take everything out.
    pub fn clear(&mut self)
        ensures
            final(self)@ == Map::<Seq<char>, V>::empty(),
    {
        self.entries.clear();
        assert(self@ =~= Map::empty());
    }
}

} // verus!
