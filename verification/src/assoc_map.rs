//! A map for few entries, of which the keys can be told apart and nothing more.
use vstd::prelude::*;

verus! {

/// Implemented by what can be the key of an [`AssocMap`].
pub trait Key: Sized {
    /// What makes a key the key that it is.
    type Mark;

    spec fn mark(&self) -> Self::Mark;

    /// Tells whether two keys are the same.
    fn same(&self, other: &Self) -> (same: bool)
        ensures
            same == (self.mark() == other.mark()),
    ;
}

/// A map from keys to values.
pub struct AssocMap<K, V> {
    entries: Vec<(K, V)>,
}

spec fn holds<K: Key, V>(entries: Seq<(K, V)>, mark: K::Mark) -> bool {
    exists|i: int| 0 <= i < entries.len() && (#[trigger] entries[i]).0.mark() == mark
}

spec fn position<K: Key, V>(entries: Seq<(K, V)>, mark: K::Mark) -> int {
    choose|i: int| 0 <= i < entries.len() && (#[trigger] entries[i]).0.mark() == mark
}

spec fn distinct<K: Key, V>(entries: Seq<(K, V)>) -> bool {
    forall|i: int, j: int|
        0 <= i < j < entries.len() ==> (#[trigger] entries[i]).0.mark() != (
        #[trigger] entries[j]).0.mark()
}

spec fn contents<K: Key, V>(entries: Seq<(K, V)>) -> Map<K::Mark, V> {
    Map::new(
        |mark: K::Mark| holds(entries, mark),
        |mark: K::Mark| entries[position(entries, mark)].1,
    )
}

/// `entries` holds each entry of `map` once, and nothing else.
pub open spec fn lists<K: Key, V>(entries: Seq<(K, V)>, map: Map<K::Mark, V>) -> bool {
    &&& forall|i: int|
        0 <= i < entries.len() ==> map.contains_key((#[trigger] entries[i]).0.mark())
            && map[entries[i].0.mark()] == entries[i].1
    &&& forall|i: int, j: int|
        0 <= i < j < entries.len() ==> (#[trigger] entries[i]).0.mark() != (
        #[trigger] entries[j]).0.mark()
    &&& forall|mark: K::Mark| #[trigger]
        map.contains_key(mark) ==> exists|i: int|
            0 <= i < entries.len() && (#[trigger] entries[i]).0.mark() == mark
}

proof fn lemma_contents_at<K: Key, V>(entries: Seq<(K, V)>, i: int)
    requires
        distinct(entries),
        0 <= i < entries.len(),
    ensures
        contents(entries).contains_key(entries[i].0.mark()),
        contents(entries)[entries[i].0.mark()] == entries[i].1,
{
    let mark = entries[i].0.mark();
    assert(holds(entries, mark));
    let p = position(entries, mark);
    assert(0 <= p < entries.len() && entries[p].0.mark() == mark);
}

proof fn lemma_contents_push<K: Key, V>(entries: Seq<(K, V)>, key: K, value: V)
    requires
        distinct(entries),
        !holds(entries, key.mark()),
    ensures
        distinct(entries.push((key, value))),
        contents(entries.push((key, value))) == contents(entries).insert(key.mark(), value),
{
    let after = entries.push((key, value));
    assert(distinct(after)) by {
        assert forall|i: int, j: int| 0 <= i < j < after.len() implies (
        #[trigger] after[i]).0.mark() != (#[trigger] after[j]).0.mark() by {
            assert(after[i] == entries[i]);
            if j < entries.len() {
                assert(after[j] == entries[j]);
            }
        }
    }
    lemma_contents_at(after, entries.len() as int);
    assert forall|mark: K::Mark| mark != key.mark() implies holds(after, mark) == holds(
        entries,
        mark,
    ) by {
        if holds(entries, mark) {
            let p = position(entries, mark);
            assert(after[p] == entries[p]);
        }
        if holds(after, mark) {
            let p = position(after, mark);
            assert(entries[p] == after[p]);
        }
    }
    assert forall|mark: K::Mark| mark != key.mark() && holds(entries, mark) implies
        #[trigger] contents(after)[mark] == contents(entries)[mark] by {
        let p = position(entries, mark);
        assert(after[p] == entries[p]);
        lemma_contents_at(after, p);
        lemma_contents_at(entries, p);
    }
    assert(contents(after) =~= contents(entries).insert(key.mark(), value));
}

proof fn lemma_contents_remove<K: Key, V>(entries: Seq<(K, V)>, at: int)
    requires
        distinct(entries),
        0 <= at < entries.len(),
    ensures
        distinct(entries.remove(at)),
        contents(entries.remove(at)) == contents(entries).remove(entries[at].0.mark()),
{
    let after = entries.remove(at);
    let gone = entries[at].0.mark();
    assert(distinct(after)) by {
        assert forall|i: int, j: int| 0 <= i < j < after.len() implies (
        #[trigger] after[i]).0.mark() != (#[trigger] after[j]).0.mark() by {
            let bi = if i < at { i } else { i + 1 };
            let bj = if j < at { j } else { j + 1 };
            assert(after[i] == entries[bi] && after[j] == entries[bj]);
        }
    }
    assert forall|mark: K::Mark| holds(after, mark) == (mark != gone && holds(entries, mark)) by {
        if holds(after, mark) {
            let p = position(after, mark);
            let b = if p < at { p } else { p + 1 };
            assert(after[p] == entries[b]);
            assert(entries[at].0.mark() == gone);
        }
        if mark != gone && holds(entries, mark) {
            let b = position(entries, mark);
            let p = if b < at { b } else { b - 1 };
            assert(after[p] == entries[b]);
        }
    }
    assert forall|mark: K::Mark| holds(after, mark) implies #[trigger] contents(after)[mark]
        == contents(entries)[mark] by {
        let p = position(after, mark);
        let b = if p < at { p } else { p + 1 };
        assert(after[p] == entries[b]);
        lemma_contents_at(after, p);
        lemma_contents_at(entries, b);
    }
    assert(contents(after) =~= contents(entries).remove(gone));
}

proof fn lemma_contents_update<K: Key, V>(entries: Seq<(K, V)>, at: int, value: V)
    requires
        distinct(entries),
        0 <= at < entries.len(),
    ensures
        distinct(entries.update(at, (entries[at].0, value))),
        contents(entries.update(at, (entries[at].0, value))) == contents(entries).insert(
            entries[at].0.mark(),
            value,
        ),
{
    let after = entries.update(at, (entries[at].0, value));
    let changed = entries[at].0.mark();
    assert(distinct(after)) by {
        assert forall|i: int, j: int| 0 <= i < j < after.len() implies (
        #[trigger] after[i]).0.mark() != (#[trigger] after[j]).0.mark() by {
            assert(after[i].0 == entries[i].0 && after[j].0 == entries[j].0);
        }
    }
    assert forall|mark: K::Mark| holds(after, mark) == holds(entries, mark) by {
        if holds(entries, mark) {
            let p = position(entries, mark);
            assert(after[p].0 == entries[p].0);
        }
        if holds(after, mark) {
            let p = position(after, mark);
            assert(entries[p].0 == after[p].0);
        }
    }
    lemma_contents_at(after, at);
    lemma_contents_at(entries, at);
    assert forall|mark: K::Mark| mark != changed && holds(entries, mark) implies #[trigger] contents(
        after,
    )[mark] == contents(entries)[mark] by {
        let p = position(entries, mark);
        assert(p != at);
        assert(after[p] == entries[p]);
        lemma_contents_at(after, p);
        lemma_contents_at(entries, p);
    }
    assert(contents(after) =~= contents(entries).insert(changed, value));
}

proof fn lemma_contents_len<K: Key, V>(entries: Seq<(K, V)>)
    requires
        distinct(entries),
    ensures
        contents(entries).dom().finite(),
        contents(entries).len() == entries.len(),
    decreases entries.len(),
{
    if entries.len() == 0 {
        assert(contents(entries).dom() =~= Set::<K::Mark>::empty());
    } else {
        let front = entries.drop_last();
        let last = entries.last();
        assert(front.push(last) =~= entries);
        assert(distinct(front)) by {
            assert forall|i: int, j: int| 0 <= i < j < front.len() implies (
            #[trigger] front[i]).0.mark() != (#[trigger] front[j]).0.mark() by {
                assert(front[i] == entries[i] && front[j] == entries[j]);
            }
        }
        assert(!holds(front, last.0.mark())) by {
            if holds(front, last.0.mark()) {
                let p = position(front, last.0.mark());
                assert(entries[p] == front[p]);
                assert(entries[entries.len() - 1] == last);
            }
        }
        lemma_contents_len(front);
        lemma_contents_push(front, last.0, last.1);
        assert(contents(entries).dom() =~= contents(front).dom().insert(last.0.mark()));
    }
}

impl<K: Key, V> View for AssocMap<K, V> {
    type V = Map<K::Mark, V>;

    closed spec fn view(&self) -> Map<K::Mark, V> {
        contents(self.entries@)
    }
}

impl<K: Key, V> AssocMap<K, V> {
    /// No key occurs twice.
    pub closed spec fn wf(&self) -> bool {
        distinct(self.entries@)
    }

    /// Creates an empty map.
    pub fn new() -> (map: Self)
        ensures
            map.wf(),
            map@ == Map::<K::Mark, V>::empty(),
    {
        let map = AssocMap { entries: Vec::new() };
        assert(map@ =~= Map::<K::Mark, V>::empty());
        map
    }

    fn find(&self, key: &K) -> (found: Option<usize>)
        ensures
            match found {
                Some(i) => i < self.entries@.len() && self.entries@[i as int].0.mark()
                    == key.mark(),
                None => !holds(self.entries@, key.mark()),
            },
    {
        let mut i: usize = 0;
        while i < self.entries.len()
            invariant
                i <= self.entries@.len(),
                forall|k: int| 0 <= k < i ==> (#[trigger] self.entries@[k]).0.mark() != key.mark(),
            decreases self.entries@.len() - i,
        {
            if self.entries[i].0.same(key) {
                return Some(i);
            }
            i += 1;
        }
        None
    }

    /// Returns what `key` is mapped to.
    pub fn get(&self, key: &K) -> (found: Option<&V>)
        requires
            self.wf(),
        ensures
            match found {
                Some(value) => self@.contains_key(key.mark()) && *value == self@[key.mark()],
                None => !self@.contains_key(key.mark()),
            },
    {
        match self.find(key) {
            Some(i) => {
                proof {
                    lemma_contents_at(self.entries@, i as int);
                }
                Some(&self.entries[i].1)
            },
            None => None,
        }
    }

    /// Returns what `key` is mapped to, to be changed.
    pub fn get_mut(&mut self, key: &K) -> (found: Option<&mut V>)
        requires
            old(self).wf(),
        ensures
            final(self).wf(),
            match found {
                Some(value) => {
                    &&& old(self)@.contains_key(key.mark())
                    &&& *value == old(self)@[key.mark()]
                    &&& final(self)@ == old(self)@.insert(key.mark(), *final(value))
                },
                None => !old(self)@.contains_key(key.mark()) && final(self)@ == old(self)@,
            },
    {
        match self.find(key) {
            Some(i) => {
                proof {
                    let before = self.entries@;
                    lemma_contents_at(before, i as int);
                    assert forall|value: V| #![trigger before.update(
                        i as int,
                        (before[i as int].0, value),
                    )] distinct(before.update(i as int, (before[i as int].0, value))) && contents(
                        before.update(i as int, (before[i as int].0, value)),
                    ) == contents(before).insert(key.mark(), value) by {
                        lemma_contents_update(before, i as int, value);
                    }
                }
                Some(&mut self.entries[i].1)
            },
            None => None,
        }
    }

    /// Tells whether `key` is mapped to anything.
    pub fn contains_key(&self, key: &K) -> (found: bool)
        requires
            self.wf(),
        ensures
            found == self@.contains_key(key.mark()),
    {
        self.get(key).is_some()
    }

    /// Maps `key` to `value`, and returns what it was mapped to before.
    pub fn insert(&mut self, key: K, value: V) -> (replaced: Option<V>)
        requires
            old(self).wf(),
        ensures
            final(self).wf(),
            final(self)@ == old(self)@.insert(key.mark(), value),
            match replaced {
                Some(before) => old(self)@.contains_key(key.mark()) && before
                    == old(self)@[key.mark()],
                None => !old(self)@.contains_key(key.mark()),
            },
    {
        let replaced = self.remove(&key);
        proof {
            let middle = self.entries@;
            assert(!contents(middle).contains_key(key.mark()));
            lemma_contents_push(middle, key, value);
            assert(old(self)@.remove(key.mark()).insert(key.mark(), value) =~= old(self)@.insert(
                key.mark(),
                value,
            ));
        }
        self.entries.push((key, value));
        replaced
    }

    /// Takes `key` out of the map, and returns what it was mapped to.
    pub fn remove(&mut self, key: &K) -> (removed: Option<V>)
        requires
            old(self).wf(),
        ensures
            final(self).wf(),
            final(self)@ == old(self)@.remove(key.mark()),
            match removed {
                Some(value) => old(self)@.contains_key(key.mark()) && value
                    == old(self)@[key.mark()],
                None => !old(self)@.contains_key(key.mark()),
            },
    {
        match self.find(key) {
            Some(at) => {
                proof {
                    lemma_contents_at(self.entries@, at as int);
                    lemma_contents_remove(self.entries@, at as int);
                }
                let (_, value) = self.entries.remove(at);
                Some(value)
            },
            None => {
                assert(self@ =~= old(self)@.remove(key.mark()));
                None
            },
        }
    }

    /// There are finitely many entries.
    pub proof fn lemma_finite(&self)
        requires
            self.wf(),
        ensures
            self@.dom().finite(),
    {
        lemma_contents_len(self.entries@);
    }

    /// Returns how many entries there are.
    pub fn len(&self) -> (len: usize)
        requires
            self.wf(),
        ensures
            self@.dom().finite(),
            len == self@.len(),
    {
        proof {
            lemma_contents_len(self.entries@);
        }
        self.entries.len()
    }

    /// Tells whether the map is empty.
    pub fn is_empty(&self) -> (empty: bool)
        requires
            self.wf(),
        ensures
            empty == (self@ == Map::<K::Mark, V>::empty()),
            empty == (self@.len() == 0),
    {
        proof {
            lemma_contents_len(self.entries@);
            if self.entries@.len() == 0 {
                assert(self@ =~= Map::<K::Mark, V>::empty());
            } else {
                lemma_contents_at(self.entries@, 0);
            }
        }
        self.entries.len() == 0
    }

    /// Takes everything out of the map.
    pub fn drain(&mut self) -> (drained: Vec<(K, V)>)
        requires
            old(self).wf(),
        ensures
            final(self).wf(),
            final(self)@ == Map::<K::Mark, V>::empty(),
            lists(drained@, old(self)@),
    {
        let mut drained: Vec<(K, V)> = Vec::new();
        std::mem::swap(&mut drained, &mut self.entries);
        proof {
            assert(self@ =~= Map::<K::Mark, V>::empty());
            assert forall|i: int| 0 <= i < drained@.len() implies old(self)@.contains_key(
                (#[trigger] drained@[i]).0.mark(),
            ) && old(self)@[drained@[i].0.mark()] == drained@[i].1 by {
                lemma_contents_at(drained@, i);
            }
        }
        drained
    }
}

} // verus!
