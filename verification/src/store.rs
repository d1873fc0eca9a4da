//! A string-keyed value store backed by a vector of entries with pairwise
//! distinct keys. Its ghost form is the finite map from key to value view.

use vstd::prelude::*;

verus! {

/// Keys of the entry sequence are pairwise distinct.
pub(crate) open spec fn unique_keys<V>(s: Seq<(String, V)>) -> bool {
    forall|i: int, j: int| 0 <= i < j < s.len() ==> (#[trigger] s[i]).0@ != (#[trigger] s[j]).0@
}

/// The map an entry sequence denotes; later entries would win, but the store
/// keeps keys unique so each key occurs once.
pub(crate) open spec fn entries_map<V: View>(s: Seq<(String, V)>) -> Map<Seq<char>, V::V>
    decreases s.len(),
{
    if s.len() == 0 {
        Map::<Seq<char>, V::V>::empty()
    } else {
        entries_map(s.drop_last()).insert(s.last().0@, s.last().1@)
    }
}

/// A key is in the map exactly when some entry carries it.
pub(crate) proof fn lemma_entries_map_domain<V: View>(s: Seq<(String, V)>, k: Seq<char>)
    ensures
        entries_map(s).contains_key(k) <==> exists|i: int| 0 <= i < s.len() && (#[trigger] s[i]).0@
            == k,
    decreases s.len(),
{
    if s.len() > 0 {
        lemma_entries_map_domain(s.drop_last(), k);
        if s.last().0@ == k {
            assert(s[s.len() - 1].0@ == k);
        } else {
            if exists|i: int| 0 <= i < s.len() && (#[trigger] s[i]).0@ == k {
                let i = choose|i: int| 0 <= i < s.len() && (#[trigger] s[i]).0@ == k;
                assert(s.drop_last()[i] == s[i]);
            }
        }
    }
}

/// With unique keys, each entry is mapped to its own value.
pub(crate) proof fn lemma_entries_map_index<V: View>(s: Seq<(String, V)>, i: int)
    requires
        unique_keys(s),
        0 <= i < s.len(),
    ensures
        entries_map(s).contains_key(s[i].0@),
        entries_map(s)[s[i].0@] == s[i].1@,
    decreases s.len(),
{
    if i == s.len() - 1 {
    } else {
        assert(unique_keys(s.drop_last()));
        assert(s.drop_last()[i] == s[i]);
        lemma_entries_map_index(s.drop_last(), i);
        assert(s[i].0@ != s[s.len() - 1].0@);
    }
}

/// With unique keys, the map has exactly one element per entry.
pub(crate) proof fn lemma_entries_map_len<V: View>(s: Seq<(String, V)>)
    requires
        unique_keys(s),
    ensures
        entries_map(s).dom().finite(),
        entries_map(s).len() == s.len(),
    decreases s.len(),
{
    if s.len() > 0 {
        assert(unique_keys(s.drop_last()));
        lemma_entries_map_len(s.drop_last());
        lemma_entries_map_domain(s.drop_last(), s.last().0@);
        assert(forall|i: int|
            0 <= i < s.len() - 1 ==> (#[trigger] s.drop_last()[i]).0@ != s.last().0@);
        assert(!entries_map(s.drop_last()).contains_key(s.last().0@));
    }
}

/// Removing the entry at `i` removes exactly its key from the map.
pub(crate) proof fn lemma_entries_map_remove<V: View>(s: Seq<(String, V)>, i: int)
    requires
        unique_keys(s),
        0 <= i < s.len(),
    ensures
        entries_map(s.remove(i)) == entries_map(s).remove(s[i].0@),
    decreases s.len(),
{
    if i == s.len() - 1 {
        assert(s.remove(i) =~= s.drop_last());
        lemma_entries_map_domain(s.drop_last(), s[i].0@);
        assert(forall|j: int|
            0 <= j < s.len() - 1 ==> (#[trigger] s.drop_last()[j]).0@ != s[i].0@);
        assert(!entries_map(s.drop_last()).contains_key(s[i].0@));
        assert(entries_map(s.drop_last()).remove(s[i].0@) =~= entries_map(s.drop_last()));
        assert(entries_map(s).remove(s[i].0@) =~= entries_map(s.drop_last()));
    } else {
        assert(unique_keys(s.drop_last()));
        assert(s.drop_last()[i] == s[i]);
        lemma_entries_map_remove(s.drop_last(), i);
        assert(s.remove(i).drop_last() =~= s.drop_last().remove(i));
        assert(s.remove(i).last() == s.last());
        assert(s[i].0@ != s.last().0@);
        assert(entries_map(s.remove(i)) == entries_map(s.drop_last().remove(i)).insert(
            s.last().0@,
            s.last().1@,
        ));
        assert(entries_map(s.drop_last()).remove(s[i].0@).insert(s.last().0@, s.last().1@)
            =~= entries_map(s.drop_last()).insert(s.last().0@, s.last().1@).remove(s[i].0@));
    }
}

/// A vector of key-value entries with pairwise distinct keys.
pub(crate) struct KvStore<V> {
    pub(crate) entries: Vec<(String, V)>,
}

impl<V: View> KvStore<V> {
    /// The store as a finite map.
    pub(crate) open spec fn view(&self) -> Map<Seq<char>, V::V> {
        entries_map(self.entries@)
    }

    /// Well-formed: keys are pairwise distinct.
    pub(crate) open spec fn wf(&self) -> bool {
        unique_keys(self.entries@)
    }

    pub(crate) fn new() -> (r: KvStore<V>)
        ensures
            r.wf(),
            r.view() == Map::<Seq<char>, V::V>::empty(),
    {
        KvStore { entries: Vec::new() }
    }

    /// Index of the entry holding `key`, if any.
    fn index_of(&self, key: &str) -> (r: Option<usize>)
        ensures
            match r {
                Some(i) => i < self.entries@.len() && self.entries@[i as int].0@ == key@,
                None => forall|j: int|
                    0 <= j < self.entries@.len() ==> (#[trigger] self.entries@[j]).0@ != key@,
            },
    {
        let n = self.entries.len();
        let mut i: usize = 0;
        while i < n
            invariant
                n == self.entries@.len(),
                0 <= i <= n,
                forall|j: int| 0 <= j < i ==> (#[trigger] self.entries@[j]).0@ != key@,
            decreases n - i,
        {
            if crate::strutil::str_equal(self.entries[i].0.as_str(), key) {
                return Some(i);
            }
            i = i + 1;
        }
        None
    }

    pub(crate) fn contains(&self, key: &str) -> (r: bool)
        ensures
            r == self.view().contains_key(key@),
    {
        let r = self.index_of(key);
        proof {
            lemma_entries_map_domain(self.entries@, key@);
        }
        r.is_some()
    }

    pub(crate) fn get(&self, key: &str) -> (r: Option<&V>)
        requires
            self.wf(),
        ensures
            match r {
                Some(v) => self.view().contains_key(key@) && v@ == self.view()[key@],
                None => !self.view().contains_key(key@),
            },
    {
        proof {
            lemma_entries_map_domain(self.entries@, key@);
        }
        match self.index_of(key) {
            Some(i) => {
                proof {
                    lemma_entries_map_index(self.entries@, i as int);
                }
                Some(&self.entries[i].1)
            },
            None => None,
        }
    }

    /// Adds the entry unless the key is already present; reports whether it
    /// was added.
    pub(crate) fn insert_new(&mut self, key: String, value: V) -> (r: bool)
        requires
            old(self).wf(),
        ensures
            final(self).wf(),
            r == !old(self).view().contains_key(key@),
            r ==> final(self).view() == old(self).view().insert(key@, value@),
            !r ==> final(self).view() == old(self).view() && *final(self) == *old(self),
    {
        proof {
            lemma_entries_map_domain(self.entries@, key@);
        }
        match self.index_of(key.as_str()) {
            Some(_) => false,
            None => {
                self.entries.push((key, value));
                proof {
                    assert(self.entries@.drop_last() =~= old(self).entries@);
                }
                true
            },
        }
    }

    /// Replaces the value under `key` if present; reports whether it was.
    pub(crate) fn replace(&mut self, key: &str, value: V) -> (r: bool)
        requires
            old(self).wf(),
        ensures
            final(self).wf(),
            r == old(self).view().contains_key(key@),
            r ==> final(self).view() == old(self).view().insert(key@, value@),
            !r ==> final(self).view() == old(self).view() && *final(self) == *old(self),
    {
        proof {
            lemma_entries_map_domain(self.entries@, key@);
        }
        match self.index_of(key) {
            Some(i) => {
                proof {
                    lemma_entries_map_remove(self.entries@, i as int);
                }
                let (k, _old_value) = self.entries.remove(i);
                self.entries.push((k, value));
                proof {
                    let ghost mid = old(self).entries@.remove(i as int);
                    assert(self.entries@.drop_last() =~= mid);
                    assert(forall|a: int, b: int|
                        0 <= a < b < mid.len() ==> (#[trigger] mid[a]).0@ != (
                        #[trigger] mid[b]).0@);
                    assert(forall|j: int|
                        0 <= j < mid.len() ==> (#[trigger] mid[j]).0@ != key@) by {
                        lemma_entries_map_domain(mid, key@);
                        assert(!entries_map(mid).contains_key(key@));
                    }
                    assert(final(self).wf());
                    assert(final(self).view() =~= old(self).view().insert(key@, value@));
                }
                true
            },
            None => false,
        }
    }

    /// Removes the entry under `key` if present; reports whether it was.
    pub(crate) fn remove(&mut self, key: &str) -> (r: bool)
        requires
            old(self).wf(),
        ensures
            final(self).wf(),
            r == old(self).view().contains_key(key@),
            r ==> final(self).view() == old(self).view().remove(key@),
            !r ==> final(self).view() == old(self).view() && *final(self) == *old(self),
    {
        proof {
            lemma_entries_map_domain(self.entries@, key@);
        }
        match self.index_of(key) {
            Some(i) => {
                proof {
                    lemma_entries_map_remove(self.entries@, i as int);
                }
                let _removed = self.entries.remove(i);
                proof {
                    let ghost now = self.entries@;
                    assert(forall|a: int, b: int|
                        0 <= a < b < now.len() ==> (#[trigger] now[a]).0@ != (
                        #[trigger] now[b]).0@);
                }
                true
            },
            None => false,
        }
    }

    pub(crate) fn len(&self) -> (r: usize)
        requires
            self.wf(),
        ensures
            r == self.view().len(),
    {
        proof {
            lemma_entries_map_len(self.entries@);
        }
        self.entries.len()
    }
}

/// A clone that preserves the ghost view exactly.
pub(crate) trait DupView: View + Sized {
    fn dup(&self) -> (r: Self)
        ensures
            r@ == self@,
    ;
}

impl<V: DupView> KvStore<V> {
    /// The stored values, one per key, in some order.
    pub(crate) fn values(&self) -> (r: Vec<V>)
        requires
            self.wf(),
        ensures
            crate::repo::lists_map(r@, self.view()),
    {
        let ghost s = self.entries@;
        let n = self.entries.len();
        let mut v: Vec<V> = Vec::new();
        let mut i: usize = 0;
        while i < n
            invariant
                n == s.len(),
                s == self.entries@,
                0 <= i <= n,
                v@.len() == i,
                forall|j: int| 0 <= j < i ==> #[trigger] v@[j]@ == s[j].1@,
            decreases n - i,
        {
            v.push(self.entries[i].1.dup());
            i = i + 1;
        }
        proof {
            lemma_entries_map_len(s);
            let ks = Seq::new(s.len(), |j: int| s[j].0@);
            assert(ks.no_duplicates()) by {
                assert(forall|a: int, b: int|
                    0 <= a < b < ks.len() ==> #[trigger] ks[a] != #[trigger] ks[b]);
            }
            assert forall|j: int| 0 <= j < v@.len() implies self.view().contains_key(
                #[trigger] ks[j],
            ) && v@[j]@ == self.view()[ks[j]] by {
                lemma_entries_map_index(s, j);
            }
            assert forall|k: Seq<char>| self.view().contains_key(k) implies ks.contains(k) by {
                lemma_entries_map_domain(s, k);
                let j = choose|j: int| 0 <= j < s.len() && (#[trigger] s[j]).0@ == k;
                assert(ks[j] == k);
            }
            assert(crate::repo::lists_map(v@, self.view()));
        }
        v
    }
}

} // verus!
