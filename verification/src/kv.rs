//! An insertion-ordered string-to-string map with last-write-wins updates,
//! held as a vector of pairs.

use vstd::prelude::*;
use vstd::string::StringExecFns;
use crate::strutil::str_eq;

verus! {

/// The index of the first entry of `m` whose key is `k`, or -1.
pub open spec fn kv_first_index<T>(m: Seq<(Seq<char>, T)>, k: Seq<char>) -> int
    decreases m.len(),
{
    if m.len() == 0 {
        -1
    } else if m[0].0 == k {
        0
    } else {
        let r = kv_first_index(m.drop_first(), k);
        if r == -1 {
            -1
        } else {
            r + 1
        }
    }
}

/// Whether `m` holds an entry with key `k`.
pub open spec fn kv_contains_key<T>(m: Seq<(Seq<char>, T)>, k: Seq<char>) -> bool {
    kv_first_index(m, k) != -1
}

/// The value bound to `k` in `m`, reading the first matching entry.
pub open spec fn kv_get<T>(m: Seq<(Seq<char>, T)>, k: Seq<char>) -> Option<T> {
    let i = kv_first_index(m, k);
    if i == -1 {
        None
    } else {
        Some(m[i].1)
    }
}

/// `kv_first_index` finds the least matching index, and -1 exactly when
/// no entry matches.
pub proof fn lemma_kv_first_index<T>(m: Seq<(Seq<char>, T)>, k: Seq<char>)
    ensures
        kv_first_index(m, k) == -1 ==> forall|i: int| 0 <= i < m.len() ==> m[i].0 != k,
        kv_first_index(m, k) != -1 ==> {
            let idx = kv_first_index(m, k);
            &&& 0 <= idx < m.len()
            &&& m[idx].0 == k
            &&& forall|j: int| 0 <= j < idx ==> m[j].0 != k
        },
    decreases m.len(),
{
    if m.len() > 0 && m[0].0 != k {
        lemma_kv_first_index(m.drop_first(), k);
        assert forall|i: int| 1 <= i < m.len() implies m.drop_first()[i - 1] == m[i] by {}
    }
}

/// An index that matches, below which nothing matches, is the first index.
pub proof fn lemma_kv_first_index_is<T>(m: Seq<(Seq<char>, T)>, k: Seq<char>, i: int)
    requires
        0 <= i < m.len(),
        m[i].0 == k,
        forall|j: int| 0 <= j < i ==> m[j].0 != k,
    ensures
        kv_first_index(m, k) == i,
{
    lemma_kv_first_index(m, k);
}

/// Replacing the entry at an index off the search path for `k` does not
/// move the first index of `k`.
pub proof fn lemma_kv_first_index_update<T>(
    m: Seq<(Seq<char>, T)>,
    k: Seq<char>,
    i: int,
    p: (Seq<char>, T),
)
    requires
        0 <= i < m.len(),
        kv_first_index(m, k) == i,
        p.0 == k,
    ensures
        kv_first_index(m.update(i, p), k) == i,
{
    lemma_kv_first_index(m, k);
    let m2 = m.update(i, p);
    assert(m2[i].0 == k);
    assert forall|j: int| 0 <= j < i implies m2[j].0 != k by {}
    lemma_kv_first_index_is(m2, k, i);
}

/// Appending an entry with an absent key binds it at the end.
pub proof fn lemma_kv_first_index_push<T>(
    m: Seq<(Seq<char>, T)>,
    k: Seq<char>,
    p: (Seq<char>, T),
)
    requires
        kv_first_index(m, k) == -1,
        p.0 == k,
    ensures
        kv_first_index(m.push(p), k) == m.len(),
{
    lemma_kv_first_index(m, k);
    lemma_kv_first_index_is(m.push(p), k, m.len() as int);
}

/// A change confined to key `k` leaves every other key's binding alone.
pub proof fn lemma_kv_get_other_update<T>(
    m: Seq<(Seq<char>, T)>,
    i: int,
    p: (Seq<char>, T),
    k2: Seq<char>,
)
    requires
        0 <= i < m.len(),
        m[i].0 == p.0,
        p.0 != k2,
    ensures
        kv_get(m.update(i, p), k2) == kv_get(m, k2),
{
    lemma_kv_first_index(m, k2);
    let m2 = m.update(i, p);
    if kv_first_index(m, k2) == -1 {
        assert forall|j: int| 0 <= j < m2.len() implies m2[j].0 != k2 by {}
        lemma_kv_first_index(m2, k2);
        if kv_first_index(m2, k2) != -1 {
            assert(m2[kv_first_index(m2, k2)].0 == k2);
        }
    } else {
        let idx = kv_first_index(m, k2);
        assert(m2[idx].0 == k2);
        assert forall|j: int| 0 <= j < idx implies m2[j].0 != k2 by {}
        lemma_kv_first_index_is(m2, k2, idx);
        assert(m2[idx].1 == m[idx].1);
    }
}

/// Appending an entry for another key leaves every other key's binding alone.
pub proof fn lemma_kv_get_other_push<T>(
    m: Seq<(Seq<char>, T)>,
    p: (Seq<char>, T),
    k2: Seq<char>,
)
    requires
        p.0 != k2,
    ensures
        kv_get(m.push(p), k2) == kv_get(m, k2),
{
    lemma_kv_first_index(m, k2);
    let m2 = m.push(p);
    if kv_first_index(m, k2) == -1 {
        assert forall|j: int| 0 <= j < m2.len() implies m2[j].0 != k2 by {}
        lemma_kv_first_index(m2, k2);
        if kv_first_index(m2, k2) != -1 {
            assert(m2[kv_first_index(m2, k2)].0 == k2);
        }
    } else {
        let idx = kv_first_index(m, k2);
        assert(m2[idx].0 == k2);
        assert forall|j: int| 0 <= j < idx implies m2[j].0 != k2 by {}
        lemma_kv_first_index_is(m2, k2, idx);
    }
}

/// An insertion-ordered map from strings to strings.  An insert of a key
/// already present overwrites its value in place; a new key is appended.
#[derive(Debug)]
pub struct StrMap {
    entries: Vec<(String, String)>,
}

impl View for StrMap {
    type V = Seq<(Seq<char>, Seq<char>)>;

    closed spec fn view(&self) -> Seq<(Seq<char>, Seq<char>)> {
        self.entries.deep_view()
    }
}

impl StrMap {
    /// An empty map.
    pub fn new() -> (m: StrMap)
        ensures
            m@ =~= Seq::<(Seq<char>, Seq<char>)>::empty(),
    {
        StrMap { entries: Vec::new() }
    }

    /// The number of entries.
    pub fn len(&self) -> (n: usize)
        ensures
            n == self@.len(),
    {
        self.entries.len()
    }

    /// The index of the first entry whose key is `k`, if any.
    fn find_index(&self, k: &str) -> (r: Option<usize>)
        ensures
            match r {
                Some(i) => kv_first_index(self@, k@) == i as int,
                None => kv_first_index(self@, k@) == -1,
            },
    {
        let mut i: usize = 0;
        let n = self.entries.len();
        while i < n
            invariant
                n == self.entries.len(),
                self@ == self.entries.deep_view(),
                self@.len() == n,
                forall|j: int| 0 <= j < n ==> #[trigger] self@[j] == (self.entries[j].0@, self.entries[j].1@),
                0 <= i <= n,
                forall|j: int| 0 <= j < i ==> self@[j].0 != k@,
            decreases n - i,
        {
            if str_eq(self.entries[i].0.as_str(), k) {
                proof {
                    lemma_kv_first_index_is(self@, k@, i as int);
                }
                return Some(i);
            }
            i = i + 1;
        }
        proof {
            lemma_kv_first_index(self@, k@);
            if kv_first_index(self@, k@) != -1 {
                assert(self@[kv_first_index(self@, k@)].0 == k@);
            }
        }
        None
    }

    /// A map holding exactly the given entries, in their order.
    pub fn from_entries(entries: Vec<(String, String)>) -> (m: StrMap)
        ensures
            m@ == entries.deep_view(),
    {
        StrMap { entries }
    }

    /// Binds `key` to `value`; a key already present keeps its position.
    pub fn insert(&mut self, key: String, value: String)
        ensures
            final(self)@ == kv_insert(old(self)@, (key@, value@)),
            kv_get(final(self)@, key@) == Some(value@),
            forall|k2: Seq<char>|
                k2 != key@ ==> kv_get(final(self)@, k2) == kv_get(old(self)@, k2),
            final(self)@.len() == if kv_contains_key(old(self)@, key@) {
                old(self)@.len()
            } else {
                old(self)@.len() + 1
            },
    {
        let ghost m0 = self@;
        let idx = self.find_index(key.as_str());
        match idx {
            Some(i) => {
                proof {
                    lemma_kv_first_index(m0, key@);
                }
                self.entries[i] = (key, value);
                proof {
                    let gi = kv_first_index(m0, (self.entries[i as int].0)@);
                    assert(self@ =~= m0.update(i as int, ((self.entries[i as int].0)@, (self.entries[i as int].1)@)));
                    lemma_kv_first_index_update(m0, (self.entries[i as int].0)@, i as int, self@[i as int]);
                    assert forall|k2: Seq<char>| k2 != (self.entries[i as int].0)@ implies kv_get(self@, k2) == kv_get(m0, k2) by {
                        lemma_kv_get_other_update(m0, i as int, self@[i as int], k2);
                    }
                }
            },
            None => {
                self.entries.push((key, value));
                proof {
                    let n = m0.len() as int;
                    assert(self@ =~= m0.push(((self.entries[n].0)@, (self.entries[n].1)@)));
                    lemma_kv_first_index_push(m0, (self.entries[n].0)@, self@[n]);
                    assert forall|k2: Seq<char>| k2 != (self.entries[n].0)@ implies kv_get(self@, k2) == kv_get(m0, k2) by {
                        lemma_kv_get_other_push(m0, self@[n], k2);
                    }
                }
            },
        }
    }

    /// The value bound to `k`, if any.
    pub fn get(&self, k: &str) -> (r: Option<&String>)
        ensures
            match r {
                Some(v) => kv_get(self@, k@) == Some(v@),
                None => kv_get(self@, k@) is None,
            },
    {
        match self.find_index(k) {
            Some(i) => {
                proof {
                    lemma_kv_first_index(self@, k@);
                    assert(self@[i as int] == ((self.entries[i as int].0)@, (self.entries[i as int].1)@));
                }
                Some(&self.entries[i].1)
            },
            None => None,
        }
    }

    /// Whether an entry with key `k` is present.
    pub fn contains_key(&self, k: &str) -> (b: bool)
        ensures
            b == kv_contains_key(self@, k@),
    {
        self.find_index(k).is_some()
    }

    /// Inserts every entry of `other`, front first.
    pub fn extend_from(&mut self, other: &StrMap)
        ensures
            final(self)@ == kv_extend(old(self)@, other@),
    {
        let ghost m0 = self@;
        let items = other.items();
        let mut i: usize = 0;
        while i < items.len()
            invariant
                0 <= i <= items.len(),
                items.deep_view() == other@,
                items.deep_view().len() == items.len(),
                forall|j: int|
                    0 <= j < items.len() ==> #[trigger] items.deep_view()[j] == ((items[j].0)@, (
                    items[j].1)@),
                self@ == kv_extend(m0, other@.take(i as int)),
            decreases items.len() - i,
        {
            self.insert(items[i].0.clone(), items[i].1.clone());
            proof {
                assert(other@.take(i + 1) =~= other@.take(i as int).push(other@[i as int]));
                lemma_kv_extend_push(m0, other@.take(i as int), other@[i as int]);
            }
            i = i + 1;
        }
        proof {
            assert(other@.take(items.len() as int) =~= other@);
        }
    }

    /// Copies the map.
    pub fn duplicate(&self) -> (m: StrMap)
        ensures
            m@ == self@,
    {
        let mut entries: Vec<(String, String)> = Vec::new();
        let mut i: usize = 0;
        while i < self.entries.len()
            invariant
                0 <= i <= self.entries.len(),
                forall|j: int|
                    0 <= j < self.entries.len() ==> #[trigger] self.entries.deep_view()[j] == ((
                    self.entries[j].0)@, (self.entries[j].1)@),
                entries.deep_view() =~= self.entries.deep_view().take(i as int),
            decreases self.entries.len() - i,
        {
            let ghost pre = entries;
            let item = (self.entries[i].0.clone(), self.entries[i].1.clone());
            let ghost gx = item;
            entries.push(item);
            proof {
                crate::strutil::lemma_push_deep_view(pre, entries, gx);
                assert(self.entries.deep_view().take(i + 1) =~= self.entries.deep_view().take(
                    i as int,
                ).push(self.entries.deep_view()[i as int]));
            }
            i = i + 1;
        }
        proof {
            assert(self.entries.deep_view().take(self.entries.len() as int) =~= self@);
        }
        StrMap { entries }
    }

    /// The entries, in insertion order.
    pub fn items(&self) -> (r: &Vec<(String, String)>)
        ensures
            r.deep_view() == self@,
    {
        &self.entries
    }
}

/// The view transformation one insert performs.
pub open spec fn kv_insert<T>(m: Seq<(Seq<char>, T)>, p: (Seq<char>, T)) -> Seq<(Seq<char>, T)> {
    let i = kv_first_index(m, p.0);
    if i == -1 {
        m.push(p)
    } else {
        m.update(i, p)
    }
}

/// The view transformation of inserting every entry of `n` into `m`,
/// front first.
pub open spec fn kv_extend<T>(m: Seq<(Seq<char>, T)>, n: Seq<(Seq<char>, T)>) -> Seq<(Seq<char>, T)>
    decreases n.len(),
{
    if n.len() == 0 {
        m
    } else {
        kv_extend(kv_insert(m, n[0]), n.drop_first())
    }
}

/// Extending by one more entry inserts it last.
pub proof fn lemma_kv_extend_push<T>(
    m: Seq<(Seq<char>, T)>,
    n: Seq<(Seq<char>, T)>,
    p: (Seq<char>, T),
)
    ensures
        kv_extend(m, n.push(p)) == kv_insert(kv_extend(m, n), p),
    decreases n.len(),
{
    if n.len() == 0 {
        assert(n.push(p)[0] == p);
        assert(n.push(p).drop_first() =~= Seq::<(Seq<char>, T)>::empty());
        assert(kv_extend(m, n.push(p)) == kv_extend(
            kv_insert(m, p),
            Seq::<(Seq<char>, T)>::empty(),
        ));
        assert(kv_extend(kv_insert(m, p), Seq::<(Seq<char>, T)>::empty()) == kv_insert(m, p));
        assert(kv_extend(m, n) == m);
    } else {
        assert(n.push(p)[0] == n[0]);
        assert(n.push(p).drop_first() =~= n.drop_first().push(p));
        assert(kv_extend(m, n.push(p)) == kv_extend(
            kv_insert(m, n[0]),
            n.drop_first().push(p),
        ));
        lemma_kv_extend_push(kv_insert(m, n[0]), n.drop_first(), p);
        assert(kv_extend(m, n) == kv_extend(kv_insert(m, n[0]), n.drop_first()));
    }
}

/// `key=value` strings for a sequence of pairs, in order.
pub open spec fn spec_kv_strings(m: Seq<(Seq<char>, Seq<char>)>) -> Seq<Seq<char>> {
    Seq::new(m.len(), |i: int| m[i].0 + "="@ + m[i].1)
}

/// Builds `key=value` strings for the entries of a map.
pub fn kv_strings(m: &StrMap) -> (r: Vec<String>)
    ensures
        r.deep_view() == spec_kv_strings(m@),
{
    let items = m.items();
    let ghost mv = m@;
    let mut r: Vec<String> = Vec::new();
    let mut i: usize = 0;
    while i < items.len()
        invariant
            items.deep_view() == mv,
            mv.len() == items.len(),
            forall|j: int|
                0 <= j < items.len() ==> #[trigger] mv[j] == ((items[j].0)@, (items[j].1)@),
            0 <= i <= items.len(),
            r.deep_view().len() == i,
            forall|j: int| 0 <= j < i ==> #[trigger] r.deep_view()[j] == mv[j].0 + "="@ + mv[j].1,
        decreases items.len() - i,
    {
        let mut s = items[i].0.clone();
        s.append("=");
        s.append(items[i].1.as_str());
        let ghost pre = r;
        let ghost gx = s;
        r.push(s);
        proof {
            crate::strutil::lemma_push_deep_view(pre, r, gx);
        }
        i = i + 1;
    }
    proof {
        assert(r.deep_view() =~= spec_kv_strings(mv));
    }
    r
}

} // verus!
