//! A map keyed by text, kept as a list of entries.
use vstd::prelude::*;

use crate::text::{same_text, texts};

verus! {

/// Values by text. No text occurs twice among the keys.
#[derive(Debug, Clone)]
pub struct TextMap<V> {
    entries: Vec<(String, V)>,
}

/// Whether `k` is the key of an entry.
pub open spec fn has_key<V>(entries: Seq<(String, V)>, k: Seq<char>) -> bool {
    exists|i: int| 0 <= i < entries.len() && (#[trigger] entries[i]).0@ == k
}

/// The position of an entry with key `k`.
pub open spec fn key_position<V>(entries: Seq<(String, V)>, k: Seq<char>) -> int {
    choose|i: int| 0 <= i < entries.len() && (#[trigger] entries[i]).0@ == k
}

/// Whether no two entries share a key.
pub open spec fn distinct_keys<V>(entries: Seq<(String, V)>) -> bool {
    forall|i: int, j: int|
        0 <= i < j < entries.len() ==> (#[trigger] entries[i]).0@ != (#[trigger] entries[j]).0@
}

/// The entries as a map.
pub open spec fn map_of<V>(entries: Seq<(String, V)>) -> Map<Seq<char>, V> {
    Map::new(
        |k: Seq<char>| has_key(entries, k),
        |k: Seq<char>| entries[key_position(entries, k)].1,
    )
}

proof fn lemma_entry<V>(entries: Seq<(String, V)>, i: int)
    requires
        distinct_keys(entries),
        0 <= i < entries.len(),
    ensures
        map_of(entries).contains_key(entries[i].0@),
        map_of(entries)[entries[i].0@] == entries[i].1,
{
    let k = entries[i].0@;
    assert(has_key(entries, k));
    let p = key_position(entries, k);
    if p < i {
        assert(entries[p].0@ != entries[i].0@);
    } else if i < p {
        assert(entries[i].0@ != entries[p].0@);
    }
}

impl<V> TextMap<V> {
    /// The entries in order.
    pub closed spec fn list(self) -> Seq<(String, V)> {
        self.entries@
    }

    /// No text occurs twice among the keys.
    pub closed spec fn wf(self) -> bool {
        distinct_keys(self.entries@)
    }

    /// The value of each key.
    pub open spec fn map(self) -> Map<Seq<char>, V> {
        map_of(self.list())
    }

    /// A map without entries.
    pub fn new() -> (r: TextMap<V>)
        ensures
            r.wf(),
            r.list() == Seq::<(String, V)>::empty(),
            r.map() == Map::<Seq<char>, V>::empty(),
    {
        let r = TextMap { entries: Vec::new() };
        assert(r.map() =~= Map::<Seq<char>, V>::empty());
        r
    }

    /// The entries of a map have different keys, and there is one for each key.
    pub proof fn keys_are_distinct(self)
        requires
            self.wf(),
        ensures
            distinct_keys(self.list()),
            self.map().dom().finite(),
            self.map().dom().len() == self.list().len(),
    {
        lemma_key_count(self.entries@);
    }

    /// A map gives each key the value of the entry that stands under it, and nothing to any
    /// other text.
    pub proof fn values_stand_under_their_keys(self)
        requires
            self.wf(),
        ensures
            forall|k: Seq<char>| #[trigger]
                self.map().contains_key(k) <==> exists|i: int|
                    0 <= i < self.list().len() && (#[trigger] self.list()[i]).0@ == k,
            forall|i: int|
                0 <= i < self.list().len() ==> self.map()[(#[trigger] self.list()[i]).0@]
                    == self.list()[i].1,
    {
        assert forall|i: int| 0 <= i < self.list().len() implies self.map()[(
        #[trigger] self.list()[i]).0@] == self.list()[i].1 by {
            lemma_entry(self.entries@, i);
        }
    }

    /// How many entries there are, that is, how many keys have a value.
    pub fn len(&self) -> (r: usize)
        ensures
            r == self.list().len(),
            self.wf() ==> r == self.map().dom().len(),
    {
        proof {
            if self.wf() {
                self.keys_are_distinct();
            }
        }
        self.entries.len()
    }

    /// The entry at position `i`.
    pub fn entry(&self, i: usize) -> (r: (&String, &V))
        requires
            self.wf(),
            i < self.list().len(),
        ensures
            *r.0 == self.list()[i as int].0,
            *r.1 == self.list()[i as int].1,
            self.map().contains_key(r.0@),
            self.map()[r.0@] == *r.1,
    {
        proof {
            lemma_entry(self.entries@, i as int);
        }
        (&self.entries[i].0, &self.entries[i].1)
    }

    fn find(&self, key: &str) -> (r: Option<usize>)
        ensures
            r is Some ==> r->0 < self.entries@.len() && self.entries@[r->0 as int].0@ == key@,
            r is Some <==> has_key(self.entries@, key@),
    {
        let mut i: usize = 0;
        while i < self.entries.len()
            invariant
                i <= self.entries@.len(),
                forall|j: int| 0 <= j < i ==> (#[trigger] self.entries@[j]).0@ != key@,
            decreases self.entries@.len() - i,
        {
            if same_text(self.entries[i].0.as_str(), key) {
                return Some(i);
            }
            i = i + 1;
        }
        None
    }

    /// The value of `key`, where it has one.
    pub fn get(&self, key: &str) -> (r: Option<&V>)
        requires
            self.wf(),
        ensures
            r is Some <==> self.map().contains_key(key@),
            r is Some ==> *r->0 == self.map()[key@],
    {
        match self.find(key) {
            Some(i) => {
                proof {
                    lemma_entry(self.entries@, i as int);
                }
                Some(&self.entries[i].1)
            },
            None => None,
        }
    }

    /// Whether `key` has a value.
    pub fn contains_key(&self, key: &str) -> (r: bool)
        ensures
            r == self.map().contains_key(key@),
    {
        self.find(key).is_some()
    }

    /// Gives `key` the value `value`, in place of any that it had.
    pub fn insert(&mut self, key: String, value: V)
        requires
            old(self).wf(),
        ensures
            final(self).wf(),
            final(self).map() == old(self).map().insert(key@, value),
    {
        let ghost before = self.entries@;
        let ghost k = key@;
        match self.find(key.as_str()) {
            Some(i) => {
                self.entries.set(i, (key, value));
                proof {
                    let after = self.entries@;
                    assert(forall|j: int|
                        0 <= j < after.len() ==> (#[trigger] after[j]).0@ == before[j].0@);
                    assert(distinct_keys(after)) by {
                        assert forall|a: int, b: int|
                            0 <= a < b < after.len() implies (#[trigger] after[a]).0@ != (
                        #[trigger] after[b]).0@ by {
                            assert(before[a].0@ != before[b].0@);
                        }
                    }
                    lemma_entry(after, i as int);
                    lemma_changed_at(before, after, i as int);
                }
            },
            None => {
                self.entries.push((key, value));
                proof {
                    let after = self.entries@;
                    assert(distinct_keys(after)) by {
                        assert forall|a: int, b: int|
                            0 <= a < b < after.len() implies (#[trigger] after[a]).0@ != (
                        #[trigger] after[b]).0@ by {
                            assert(after[a] == before[a]);
                            if b < before.len() {
                                assert(before[a].0@ != before[b].0@);
                            }
                        }
                    }
                    lemma_entry(after, before.len() as int);
                    lemma_pushed(before, after);
                }
            },
        }
        assert(self.map() =~= map_of(before).insert(k, value));
    }

    /// Drops the entries whose keys are listed.
    pub fn remove_listed(&mut self, keys: &Vec<String>)
        requires
            old(self).wf(),
        ensures
            final(self).wf(),
            final(self).map() == old(self).map().remove_keys(texts(keys@).to_set()),
    {
        let ghost before = self.entries@;
        let mut kept: Vec<(String, V)> = Vec::new();
        while self.entries.len() > 0
            invariant
                self.entries@.len() <= before.len(),
                self.entries@ == before.take(self.entries@.len() as int),
                distinct_keys(before),
                distinct_keys(kept@),
                forall|i: int|
                    0 <= i < kept@.len() ==> !texts(keys@).contains((#[trigger] kept@[i]).0@),
                forall|i: int|
                    0 <= i < kept@.len() ==> exists|j: int|
                        self.entries@.len() <= j < before.len() && #[trigger] before[j]
                            == #[trigger] kept@[i],
                forall|j: int|
                    self.entries@.len() <= j < before.len() && !texts(keys@).contains(
                        (#[trigger] before[j]).0@,
                    ) ==> kept@.contains(before[j]),
            decreases self.entries@.len(),
        {
            let ghost n = self.entries@.len() as int;
            let ghost kept_before = kept@;
            match self.entries.pop() {
                Some(e) => {
                    assert(e == before[n - 1]);
                    assert(self.entries@ =~= before.take(n - 1));
                    if !is_listed(&e.0, keys) {
                        kept.push(e);
                        proof {
                            assert forall|a: int, b: int|
                                0 <= a < b < kept@.len() implies (#[trigger] kept@[a]).0@ != (
                            #[trigger] kept@[b]).0@ by {
                                if b == kept@.len() - 1 {
                                    assert(kept@[a] == kept_before[a]);
                                    let j = choose|j: int|
                                        n <= j < before.len() && #[trigger] before[j]
                                            == kept_before[a];
                                    assert(before[n - 1].0@ != before[j].0@);
                                } else {
                                    assert(kept@[a] == kept_before[a]);
                                    assert(kept@[b] == kept_before[b]);
                                }
                            }
                            assert forall|i: int| 0 <= i < kept@.len() implies exists|j: int|
                                n - 1 <= j < before.len() && #[trigger] before[j]
                                    == #[trigger] kept@[i] by {
                                if i == kept@.len() - 1 {
                                    assert(before[n - 1] == kept@[i]);
                                } else {
                                    assert(kept@[i] == kept_before[i]);
                                    let j = choose|j: int|
                                        n <= j < before.len() && #[trigger] before[j]
                                            == kept_before[i];
                                    assert(before[j] == kept@[i]);
                                }
                            }
                            assert forall|j: int|
                                n - 1 <= j < before.len() && !texts(keys@).contains(
                                    (#[trigger] before[j]).0@,
                                ) implies kept@.contains(before[j]) by {
                                if j == n - 1 {
                                    assert(kept@[kept@.len() - 1] == before[j]);
                                } else {
                                    let i = choose|i: int|
                                        0 <= i < kept_before.len() && kept_before[i] == before[j];
                                    assert(kept@[i] == before[j]);
                                }
                            }
                        }
                    } else {
                        proof {
                            assert forall|i: int| 0 <= i < kept@.len() implies exists|j: int|
                                n - 1 <= j < before.len() && #[trigger] before[j]
                                    == #[trigger] kept@[i] by {
                                let j = choose|j: int|
                                    n <= j < before.len() && #[trigger] before[j]
                                        == kept_before[i];
                                assert(before[j] == kept@[i]);
                            }
                        }
                    }
                },
                None => {},
            }
        }
        self.entries = kept;
        proof {
            let after = self.entries@;
            let gone = texts(keys@).to_set();
            assert forall|k: Seq<char>| #[trigger]
                map_of(after).contains_key(k) == map_of(before).remove_keys(gone).contains_key(
                    k,
                ) by {
                if has_key(after, k) {
                    let i = key_position(after, k);
                    let j = choose|j: int|
                        0 <= j < before.len() && #[trigger] before[j] == after[i];
                    assert(before[j].0@ == k);
                }
                if has_key(before, k) && !gone.contains(k) {
                    let j = key_position(before, k);
                    assert(after.contains(before[j]));
                    let i = choose|i: int| 0 <= i < after.len() && after[i] == before[j];
                    assert(after[i].0@ == k);
                }
            }
            assert forall|k: Seq<char>| map_of(after).contains_key(k) implies #[trigger] map_of(
                after,
            )[k] == map_of(before)[k] by {
                let i = key_position(after, k);
                let j = choose|j: int| 0 <= j < before.len() && #[trigger] before[j] == after[i];
                lemma_entry(after, i);
                lemma_entry(before, j);
            }
            assert(map_of(after) =~= map_of(before).remove_keys(gone));
        }
    }

    /// Takes over every entry of `other`, in place of any with the same key.
    pub fn extend(&mut self, other: TextMap<V>)
        requires
            old(self).wf(),
            other.wf(),
        ensures
            final(self).wf(),
            final(self).map() == old(self).map().union_prefer_right(other.map()),
    {
        let ghost all = other.entries@;
        let ghost start = self.map();
        let mut rest = other.entries;
        proof {
            assert(all.skip(all.len() as int) =~= Seq::empty());
            assert(map_of(all.skip(all.len() as int)) =~= Map::empty());
            assert(start.union_prefer_right(map_of(all.skip(all.len() as int))) =~= start);
        }
        while rest.len() > 0
            invariant
                self.wf(),
                distinct_keys(all),
                rest@.len() <= all.len(),
                rest@ == all.take(rest@.len() as int),
                self.map() == start.union_prefer_right(map_of(all.skip(rest@.len() as int))),
            decreases rest@.len(),
        {
            let ghost n = rest@.len() as int;
            match rest.pop() {
                Some((k, v)) => {
                    assert(rest@ =~= all.take(n - 1));
                    self.insert(k, v);
                    proof {
                        let a = all.skip(n);
                        let b = all.skip(n - 1);
                        assert(a =~= b.drop_first());
                        lemma_prepended(a, b);
                        assert(b[0] == all[n - 1]);
                        assert(self.map() =~= start.union_prefer_right(map_of(b)));
                    }
                },
                None => {},
            }
        }
        assert(all.skip(0) =~= all);
    }
}

proof fn lemma_key_count<V>(entries: Seq<(String, V)>)
    requires
        distinct_keys(entries),
    ensures
        map_of(entries).dom().finite(),
        map_of(entries).dom().len() == entries.len(),
    decreases entries.len(),
{
    if entries.len() == 0 {
        assert(map_of(entries).dom() =~= Set::empty());
    } else {
        let rest = entries.drop_last();
        let k = entries.last().0@;
        lemma_key_count(rest);
        lemma_pushed(rest, entries);
        assert(!has_key(rest, k)) by {
            if has_key(rest, k) {
                let i = key_position(rest, k);
                assert(entries[i].0@ != entries[entries.len() - 1].0@);
            }
        }
        assert(map_of(entries).dom() =~= map_of(rest).dom().insert(k));
    }
}

proof fn lemma_changed_at<V>(before: Seq<(String, V)>, after: Seq<(String, V)>, p: int)
    requires
        distinct_keys(before),
        distinct_keys(after),
        before.len() == after.len(),
        0 <= p < before.len(),
        before[p].0@ == after[p].0@,
        forall|j: int| 0 <= j < before.len() && j != p ==> #[trigger] after[j] == before[j],
    ensures
        map_of(after) == map_of(before).insert(after[p].0@, after[p].1),
{
    let next = map_of(before).insert(after[p].0@, after[p].1);
    assert forall|k: Seq<char>| #[trigger]
        map_of(after).contains_key(k) == next.contains_key(k) by {
        if has_key(after, k) {
            let i = key_position(after, k);
            if i != p {
                assert(before[i].0@ == k);
            }
        }
        if has_key(before, k) {
            let i = key_position(before, k);
            assert(after[i].0@ == k);
        }
        if k == after[p].0@ {
            assert(has_key(after, k));
        }
    }
    assert forall|k: Seq<char>| map_of(after).contains_key(k) implies #[trigger] map_of(after)[k]
        == next[k] by {
        let i = key_position(after, k);
        lemma_entry(after, i);
        lemma_entry(after, p);
        if i != p {
            lemma_entry(before, i);
            if i < p {
                assert(after[i].0@ != after[p].0@);
            } else {
                assert(after[p].0@ != after[i].0@);
            }
        }
    }
    assert(map_of(after) =~= next);
}

proof fn lemma_pushed<V>(before: Seq<(String, V)>, after: Seq<(String, V)>)
    requires
        distinct_keys(after),
        after.len() == before.len() + 1,
        forall|j: int| 0 <= j < before.len() ==> #[trigger] after[j] == before[j],
    ensures
        map_of(after) == map_of(before).insert(after.last().0@, after.last().1),
{
    let p = before.len() as int;
    let next = map_of(before).insert(after[p].0@, after[p].1);
    assert(distinct_keys(before)) by {
        assert forall|a: int, b: int| 0 <= a < b < before.len() implies (#[trigger] before[a]).0@
            != (#[trigger] before[b]).0@ by {
            assert(after[a].0@ != after[b].0@);
        }
    }
    assert forall|k: Seq<char>| #[trigger]
        map_of(after).contains_key(k) == next.contains_key(k) by {
        if has_key(after, k) {
            let i = key_position(after, k);
            if i != p {
                assert(before[i].0@ == k);
            }
        }
        if has_key(before, k) {
            let i = key_position(before, k);
            assert(after[i].0@ == k);
        }
        if k == after[p].0@ {
            assert(has_key(after, k));
        }
    }
    assert forall|k: Seq<char>| map_of(after).contains_key(k) implies #[trigger] map_of(after)[k]
        == next[k] by {
        let i = key_position(after, k);
        lemma_entry(after, i);
        lemma_entry(after, p);
        if i != p {
            lemma_entry(before, i);
            assert(after[i].0@ != after[p].0@);
        }
    }
    assert(map_of(after) =~= next);
}

proof fn lemma_prepended<V>(a: Seq<(String, V)>, b: Seq<(String, V)>)
    requires
        distinct_keys(b),
        b.len() == a.len() + 1,
        a == b.drop_first(),
    ensures
        map_of(b) == map_of(a).insert(b[0].0@, b[0].1),
{
    let next = map_of(a).insert(b[0].0@, b[0].1);
    assert(forall|j: int| 0 <= j < a.len() ==> #[trigger] a[j] == b[j + 1]);
    assert(distinct_keys(a)) by {
        assert forall|i: int, j: int| 0 <= i < j < a.len() implies (#[trigger] a[i]).0@ != (
        #[trigger] a[j]).0@ by {
            assert(b[i + 1].0@ != b[j + 1].0@);
        }
    }
    assert forall|k: Seq<char>| #[trigger] map_of(b).contains_key(k) == next.contains_key(k) by {
        if has_key(b, k) {
            let i = key_position(b, k);
            if i > 0 {
                assert(a[i - 1].0@ == k);
            }
        }
        if has_key(a, k) {
            let i = key_position(a, k);
            assert(b[i + 1].0@ == k);
        }
        if k == b[0].0@ {
            assert(has_key(b, k));
        }
    }
    assert forall|k: Seq<char>| map_of(b).contains_key(k) implies #[trigger] map_of(b)[k]
        == next[k] by {
        let i = key_position(b, k);
        lemma_entry(b, i);
        lemma_entry(b, 0);
        if i > 0 {
            lemma_entry(a, i - 1);
            assert(b[0].0@ != b[i].0@);
        }
    }
    assert(map_of(b) =~= next);
}

/// Whether `s` is one of the listed texts.
pub fn is_listed(s: &str, list: &Vec<String>) -> (r: bool)
    ensures
        r == texts(list@).contains(s@),
{
    let mut i: usize = 0;
    while i < list.len()
        invariant
            i <= list@.len(),
            forall|j: int| 0 <= j < i ==> #[trigger] texts(list@)[j] != s@,
        decreases list@.len() - i,
    {
        if same_text(list[i].as_str(), s) {
            assert(texts(list@)[i as int] == s@);
            return true;
        }
        i = i + 1;
    }
    false
}

} // verus!
