//! An insertion-ordered map from `String` keys to values.
//!
//! Lookups return the first entry whose key matches; `insert` replaces the
//! value of an existing key in place (keeping its position) and appends a new
//! key at the end, so keys never repeat.
use vstd::prelude::*;

verus! {

/// `i` is the first position of `s` whose key is `k`.
pub open spec fn is_first_key<V>(s: Seq<(String, V)>, k: Seq<char>, i: int) -> bool {
    &&& 0 <= i < s.len()
    &&& s[i].0@ == k
    &&& forall|j: int| 0 <= j < i ==> s[j].0@ != k
}

/// Some entry of `s` has the key `k`.
pub open spec fn has_key<V>(s: Seq<(String, V)>, k: Seq<char>) -> bool {
    exists|i: int| 0 <= i < s.len() && s[i].0@ == k
}

/// The position of the first entry of `s` with key `k` (meaningful when `has_key(s, k)`).
pub open spec fn first_index<V>(s: Seq<(String, V)>, k: Seq<char>) -> int {
    choose|i: int| is_first_key(s, k, i)
}

/// The value stored under `k`: the value of the first entry with that key.
pub open spec fn lookup<V>(s: Seq<(String, V)>, k: Seq<char>) -> Option<V> {
    if has_key(s, k) {
        Some(s[first_index(s, k)].1)
    } else {
        None
    }
}

/// No key occurs twice.
pub open spec fn keys_unique<V>(s: Seq<(String, V)>) -> bool {
    forall|i: int, j: int| 0 <= i < j < s.len() ==> s[i].0@ != s[j].0@
}

/// The entries after inserting `v` under `k`: an existing entry keeps its key
/// and position and takes the new value; otherwise `(k, v)` is appended.
pub open spec fn insert_entry<V>(s: Seq<(String, V)>, k: String, v: V) -> Seq<(String, V)> {
    if has_key(s, k@) {
        let i = first_index(s, k@);
        s.update(i, (s[i].0, v))
    } else {
        s.push((k, v))
    }
}

/// When some entry has key `k`, there is a first such entry and `first_index` names it.
pub proof fn lemma_first_index<V>(s: Seq<(String, V)>, k: Seq<char>)
    requires
        has_key(s, k),
    ensures
        is_first_key(s, k, first_index(s, k)),
    decreases s.len(),
{
    if s[0].0@ == k {
        assert(is_first_key(s, k, 0));
    } else {
        let t = s.drop_first();
        let w = choose|i: int| 0 <= i < s.len() && s[i].0@ == k;
        assert(t[w - 1].0@ == k);
        lemma_first_index(t, k);
        let i = first_index(t, k);
        assert forall|j: int| 0 <= j < i + 1 implies s[j].0@ != k by {
            if j > 0 {
                assert(s[j] == t[j - 1]);
            }
        }
        assert(is_first_key(s, k, i + 1));
    }
}

/// Two first positions of the same key coincide.
pub proof fn lemma_first_unique<V>(s: Seq<(String, V)>, k: Seq<char>, i: int, j: int)
    requires
        is_first_key(s, k, i),
        is_first_key(s, k, j),
    ensures
        i == j,
{
}

/// Reading a key right after inserting it gives the inserted value.
pub proof fn lemma_lookup_insert_same<V>(s: Seq<(String, V)>, k: String, v: V)
    ensures
        lookup(insert_entry(s, k, v), k@) == Some(v),
{
    let t = insert_entry(s, k, v);
    if has_key(s, k@) {
        lemma_first_index(s, k@);
        let i = first_index(s, k@);
        assert(is_first_key(t, k@, i));
        assert(has_key(t, k@));
        lemma_first_index(t, k@);
        lemma_first_unique(t, k@, i, first_index(t, k@));
    } else {
        let n = s.len() as int;
        assert(t[n].0@ == k@);
        assert(is_first_key(t, k@, n));
        lemma_first_index(t, k@);
        lemma_first_unique(t, k@, n, first_index(t, k@));
    }
}

/// Inserting under one key leaves what every other key reads unchanged.
pub proof fn lemma_lookup_insert_other<V>(s: Seq<(String, V)>, k: String, v: V, k2: Seq<char>)
    requires
        k2 != k@,
    ensures
        lookup(insert_entry(s, k, v), k2) == lookup(s, k2),
{
    let t = insert_entry(s, k, v);
    if has_key(s, k@) {
        lemma_first_index(s, k@);
    }
    assert(forall|i: int| 0 <= i < s.len() ==> #[trigger] t[i].0@ == s[i].0@);
    if has_key(s, k2) {
        lemma_first_index(s, k2);
        let i = first_index(s, k2);
        assert(is_first_key(t, k2, i));
        lemma_first_index(t, k2);
        lemma_first_unique(t, k2, i, first_index(t, k2));
        if has_key(s, k@) {
            assert(i != first_index(s, k@));
        }
    } else {
        if has_key(t, k2) {
            let w = choose|i: int| 0 <= i < t.len() && t[i].0@ == k2;
            if w < s.len() {
                assert(s[w].0@ == k2);
            }
        }
        assert(!has_key(t, k2));
    }
}

/// Inserting keeps keys unique.
pub proof fn lemma_insert_keeps_unique<V>(s: Seq<(String, V)>, k: String, v: V)
    requires
        keys_unique(s),
    ensures
        keys_unique(insert_entry(s, k, v)),
{
    let t = insert_entry(s, k, v);
    if has_key(s, k@) {
        lemma_first_index(s, k@);
        assert(forall|i: int| 0 <= i < s.len() ==> #[trigger] t[i].0@ == s[i].0@);
    } else {
        assert(forall|i: int| 0 <= i < s.len() ==> #[trigger] t[i].0@ == s[i].0@);
        assert forall|i: int, j: int| 0 <= i < j < t.len() implies t[i].0@ != t[j].0@ by {
            if j == s.len() {
                assert(s[i].0@ != k@);
            }
        }
    }
}

/// With unique keys, the entry at any position is what its key reads.
pub proof fn lemma_lookup_unique_at<V>(s: Seq<(String, V)>, i: int)
    requires
        keys_unique(s),
        0 <= i < s.len(),
    ensures
        lookup(s, s[i].0@) == Some(s[i].1),
{
    let k = s[i].0@;
    assert(is_first_key(s, k, i));
    lemma_first_index(s, k);
    lemma_first_unique(s, k, i, first_index(s, k));
}

/// An insertion-ordered map keyed by strings.
pub struct StrMap<V> {
    items: Vec<(String, V)>,
}

impl<V> View for StrMap<V> {
    type V = Seq<(String, V)>;

    closed spec fn view(&self) -> Seq<(String, V)> {
        self.items@
    }
}

impl<V> StrMap<V> {
    /// An empty map.
    pub fn new() -> (m: Self)
        ensures
            m@ == Seq::<(String, V)>::empty(),
    {
        StrMap { items: Vec::new() }
    }

    /// The number of entries.
    pub fn len(&self) -> (n: usize)
        ensures
            n == self@.len(),
    {
        self.items.len()
    }

    /// The entry at position `i`, in insertion order.
    pub fn entry(&self, i: usize) -> (e: &(String, V))
        requires
            i < self@.len(),
        ensures
            *e == self@[i as int],
    {
        &self.items[i]
    }

    /// The position of the first entry whose key is `k`.
    pub fn find(&self, k: &str) -> (r: Option<usize>)
        ensures
            match r {
                Some(i) => is_first_key(self@, k@, i as int),
                None => !has_key(self@, k@),
            },
    {
        let n = self.items.len();
        let mut i: usize = 0;
        while i < n
            invariant
                n == self@.len(),
                i <= n,
                forall|j: int| 0 <= j < i ==> self@[j].0@ != k@,
            decreases n - i,
        {
            if crate::text::str_eq(self.items[i].0.as_str(), k) {
                return Some(i);
            }
            i = i + 1;
        }
        None
    }

    /// The value stored under `k`, if any.
    pub fn get(&self, k: &str) -> (r: Option<&V>)
        ensures
            match r {
                Some(v) => lookup(self@, k@) == Some(*v),
                None => lookup(self@, k@) is None,
            },
    {
        match self.find(k) {
            Some(i) => {
                proof {
                    lemma_first_index(self@, k@);
                    lemma_first_unique(self@, k@, i as int, first_index(self@, k@));
                }
                Some(&self.items[i].1)
            },
            None => None,
        }
    }

    /// Whether some entry has key `k`.
    pub fn contains_key(&self, k: &str) -> (b: bool)
        ensures
            b == has_key(self@, k@),
    {
        self.find(k).is_some()
    }

    /// Stores `v` under `k`, replacing the value of an existing entry with that key.
    pub fn insert(&mut self, k: String, v: V)
        ensures
            final(self)@ == insert_entry(old(self)@, k, v),
    {
        match self.find(k.as_str()) {
            Some(i) => {
                proof {
                    lemma_first_index(old(self)@, k@);
                    lemma_first_unique(old(self)@, k@, i as int, first_index(old(self)@, k@));
                }
                let old_key = self.items[i].0.clone();
                self.items.set(i, (old_key, v));
            },
            None => {
                self.items.push((k, v));
            },
        }
    }
}

} // verus!
