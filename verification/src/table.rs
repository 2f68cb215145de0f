//! A keyed table of ledger entries, seen in contracts as a mathematical map.

use vstd::prelude::*;

verus! {

/// A value that a table can hold and copy: a copy shows the same view.
pub trait Stored: View + Sized {
    fn duplicate(&self) -> (r: Self)
        ensures
            r@ == self@,
    ;
}

/// A value that a table can be keyed by: keys are told apart by their views.
pub trait Key: Stored {
    fn same(&self, other: &Self) -> (r: bool)
        ensures
            r == (self@ == other@),
    ;
}

impl Stored for i128 {
    fn duplicate(&self) -> (r: Self) {
        *self
    }
}

impl Stored for () {
    fn duplicate(&self) -> (r: Self) {
    }
}

impl Stored for Vec<u8> {
    fn duplicate(&self) -> (r: Self) {
        let r = self.clone();
        assert(r@ =~= self@);
        r
    }
}

impl Key for Vec<u8> {
    fn same(&self, other: &Self) -> (r: bool) {
        if self.len() != other.len() {
            return false;
        }
        let mut i: usize = 0;
        while i < self.len()
            invariant
                self.len() == other.len(),
                i <= self.len(),
                forall|j: int| 0 <= j < i ==> self@[j] == other@[j],
            decreases self.len() - i,
        {
            if self[i] != other[i] {
                return false;
            }
            i += 1;
        }
        assert(self@ =~= other@);
        true
    }
}

impl<A: Stored, B: Stored> Stored for (A, B) {
    fn duplicate(&self) -> (r: Self) {
        (self.0.duplicate(), self.1.duplicate())
    }
}

impl<A: Key, B: Key> Key for (A, B) {
    fn same(&self, other: &Self) -> (r: bool) {
        self.0.same(&other.0) && self.1.same(&other.1)
    }
}

/// The map that a list of entries stands for: a later entry hides an earlier
/// one with the same key.
pub open spec fn entries_map<K: View, V: View>(entries: Seq<(K, V)>) -> Map<K::V, V::V>
    decreases entries.len(),
{
    if entries.len() == 0 {
        Map::empty()
    } else {
        entries_map(entries.drop_last()).insert(entries.last().0@, entries.last().1@)
    }
}

/// Dropping an entry changes the map at that entry's key at most.
proof fn lemma_entry_removed<K: View, V: View>(entries: Seq<(K, V)>, i: int)
    requires
        0 <= i < entries.len(),
    ensures
        entries_map(entries.remove(i)).remove(entries[i].0@) =~= entries_map(entries).remove(
            entries[i].0@,
        ),
    decreases entries.len(),
{
    if i == entries.len() - 1 {
        assert(entries.remove(i) =~= entries.drop_last());
    } else {
        lemma_entry_removed(entries.drop_last(), i);
        assert(entries.remove(i).drop_last() =~= entries.drop_last().remove(i));
        assert(entries.remove(i).last() == entries.last());
        let k = entries[i].0@;
        let l = entries.last();
        let without = entries_map(entries.drop_last().remove(i));
        let with = entries_map(entries.drop_last());
        assert forall|q: K::V| q != k implies #[trigger] without.dom().contains(q)
            == with.dom().contains(q) && (with.dom().contains(q) ==> without[q] == with[q]) by {
            assert(without.remove(k).dom().contains(q) == with.remove(k).dom().contains(q));
            if with.dom().contains(q) {
                assert(without.remove(k)[q] == with.remove(k)[q]);
            }
        }
        let a = without.insert(l.0@, l.1@).remove(k);
        let b = with.insert(l.0@, l.1@).remove(k);
        assert forall|q: K::V| #[trigger]
            a.dom().contains(q) == b.dom().contains(q) && (b.dom().contains(q) ==> a[q]
                == b[q]) by {
            assert(q != k ==> without.dom().contains(q) == with.dom().contains(q));
            if q != k && q == l.0@ {
                assert(without.insert(l.0@, l.1@)[q] == l.1@);
            }
        }
        assert(a =~= b);
    }
}

/// A key that no entry carries is not in the map.
proof fn lemma_absent_key<K: View, V: View>(entries: Seq<(K, V)>, k: K::V)
    requires
        forall|j: int| 0 <= j < entries.len() ==> (#[trigger] entries[j]).0@ != k,
    ensures
        !entries_map(entries).contains_key(k),
    decreases entries.len(),
{
    if entries.len() > 0 {
        let front = entries.drop_last();
        assert forall|j: int| 0 <= j < front.len() implies (#[trigger] front[j]).0@ != k by {
            assert(front[j] == entries[j]);
        }
        lemma_absent_key(front, k);
        assert(entries[entries.len() - 1].0@ != k);
    }
}

/// A table of entries, one value for each key that is set.
#[derive(Debug)]
pub struct Table<K, V> {
    entries: Vec<(K, V)>,
}

impl<K: Key, V: Stored> View for Table<K, V> {
    type V = Map<K::V, V::V>;

    closed spec fn view(&self) -> Map<K::V, V::V> {
        entries_map(self.entries@)
    }
}

impl<K: Key, V: Stored> Table<K, V> {
    /// A table without entries.
    pub fn new() -> (r: Self)
        ensures
            r@ == Map::<K::V, V::V>::empty(),
    {
        Table { entries: Vec::new() }
    }

    /// The value set for a key, if there is one.
    pub fn get(&self, key: &K) -> (r: Option<&V>)
        ensures
            match r {
                Some(v) => self@.contains_key(key@) && v@ == self@[key@],
                None => !self@.contains_key(key@),
            },
    {
        let mut i: usize = self.entries.len();
        proof {
            assert(self.entries@.take(i as int) =~= self.entries@);
        }
        while i > 0
            invariant
                i <= self.entries.len(),
                forall|j: int|
                    i <= j < self.entries@.len() ==> (#[trigger] self.entries@[j]).0@ != key@,
                self@.contains_key(key@) == entries_map(
                    self.entries@.take(i as int),
                ).contains_key(key@),
                self@.contains_key(key@) ==> self@[key@] == entries_map(
                    self.entries@.take(i as int),
                )[key@],
            decreases i,
        {
            let ghost whole = self.entries@.take(i as int);
            i -= 1;
            proof {
                assert(whole.drop_last() =~= self.entries@.take(i as int));
                assert(whole.last() == self.entries@[i as int]);
            }
            if self.entries[i].0.same(key) {
                return Some(&self.entries[i].1);
            }
        }
        None
    }

    /// Whether a value is set for a key.
    pub fn has(&self, key: &K) -> (r: bool)
        ensures
            r == self@.contains_key(key@),
    {
        self.get(key).is_some()
    }

    /// Unsets a key.
    pub fn remove(&mut self, key: &K)
        ensures
            final(self)@ == old(self)@.remove(key@),
    {
        let mut i: usize = 0;
        while i < self.entries.len()
            invariant
                i <= self.entries.len(),
                forall|j: int| 0 <= j < i ==> (#[trigger] self.entries@[j]).0@ != key@,
                entries_map(self.entries@).remove(key@) =~= old(self)@.remove(key@),
            decreases self.entries.len() - i,
        {
            if self.entries[i].0.same(key) {
                proof {
                    lemma_entry_removed(self.entries@, i as int);
                }
                let ghost before = self.entries@;
                self.entries.remove(i);
                assert forall|j: int| 0 <= j < i implies (#[trigger] self.entries@[j]).0@
                    != key@ by {
                    assert(self.entries@[j] == before[j]);
                }
            } else {
                i += 1;
            }
        }
        proof {
            lemma_absent_key(self.entries@, key@);
            assert(entries_map(self.entries@) =~= entries_map(self.entries@).remove(key@));
        }
    }

    /// Sets the value for a key, in place of any earlier one.
    pub fn set(&mut self, key: K, value: V)
        ensures
            final(self)@ == old(self)@.insert(key@, value@),
    {
        self.remove(&key);
        let ghost before = self.entries@;
        self.entries.push((key, value));
        proof {
            assert(self.entries@.drop_last() =~= before);
            assert(self@ =~= old(self)@.insert(key@, value@));
        }
    }
}

} // verus!
