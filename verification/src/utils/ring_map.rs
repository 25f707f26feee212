use vstd::prelude::*;

verus! {

/// Whether some entry of `s` has key `k`.
pub open spec fn has_key<K, V>(s: Seq<(K, V)>, k: K) -> bool {
    exists|i: int| 0 <= i < s.len() && #[trigger] s[i].0 == k
}

/// Where the entry with key `k` stands (meaningful when `has_key(s, k)`).
pub open spec fn position<K, V>(s: Seq<(K, V)>, k: K) -> int {
    choose|i: int| 0 <= i < s.len() && #[trigger] s[i].0 == k
}

/// No two entries share a key.
pub open spec fn distinct_keys<K, V>(s: Seq<(K, V)>) -> bool {
    forall|i: int, j: int| 0 <= i < j < s.len() ==> #[trigger] s[i].0 != #[trigger] s[j].0
}

/// The value stored under `k`, if any.
pub open spec fn lookup<K, V>(s: Seq<(K, V)>, k: K) -> Option<V> {
    if has_key(s, k) {
        Some(s[position(s, k)].1)
    } else {
        None
    }
}

/// The entries after inserting `(k, v)` into a map of capacity `cap`: a key
/// already present keeps its place and takes the new value; a new key goes
/// last, and when the map is full the oldest entry leaves first.
pub open spec fn after_insert<K, V>(s: Seq<(K, V)>, cap: nat, k: K, v: V) -> Seq<(K, V)> {
    if has_key(s, k) {
        s.update(position(s, k), (k, v))
    } else if s.len() >= cap {
        s.drop_first().push((k, v))
    } else {
        s.push((k, v))
    }
}

/// The entries after removing key `k`; the others keep their order.
pub open spec fn after_remove<K, V>(s: Seq<(K, V)>, k: K) -> Seq<(K, V)> {
    if has_key(s, k) {
        s.remove(position(s, k))
    } else {
        s
    }
}

/// A map that keeps the `capacity` most recently added keys, in the order
/// they were first added.
pub struct RingMap<K, V> {
    entries: Vec<(K, V)>,
    capacity: usize,
}

impl<K, V> View for RingMap<K, V> {
    type V = Seq<(K, V)>;

    /// The entries, oldest first.
    closed spec fn view(&self) -> Seq<(K, V)> {
        self.entries@
    }
}

impl<K, V> RingMap<K, V> {
    #[verifier::type_invariant]
    spec fn well_formed(self) -> bool {
        &&& distinct_keys(self.entries@)
        &&& self.entries@.len() <= self.capacity
    }

    /// The most entries the map keeps.
    pub closed spec fn capacity(&self) -> nat {
        self.capacity as nat
    }
}

impl<K, V> RingMap<K, V> where K: Eq + std::hash::Hash + Clone {
    /// Create a new ring buffer with the specified capacity
    pub fn new(capacity: usize) -> (r: Self)
        ensures
            r@ == Seq::<(K, V)>::empty(),
            r.capacity() == capacity,
    {
        RingMap { entries: Vec::new(), capacity }
    }

    /// Where `key` stands among the entries, if it is there.
    fn find(&self, key: &K) -> (r: Option<usize>)
        requires
            vstd::laws_eq::obeys_concrete_eq::<K>(),
        ensures
            r == (if has_key(self@, *key) {
                Some(position(self@, *key) as usize)
            } else {
                None::<usize>
            }),
    {
        proof {
            use_type_invariant(self);
        }
        let mut i: usize = 0;
        while i < self.entries.len()
            invariant
                i <= self.entries@.len(),
                forall|j: int| 0 <= j < i ==> #[trigger] self.entries@[j].0 != *key,
                vstd::laws_eq::obeys_concrete_eq::<K>(),
                distinct_keys(self.entries@),
            decreases self.entries@.len() - i,
        {
            let same = self.entries[i].0 == *key;
            proof {
                reveal(vstd::laws_eq::obeys_concrete_eq);
                assert(same == (self.entries@[i as int].0 == *key));
            }
            if same {
                proof {
                    assert(has_key(self@, *key));
                    let p = position(self@, *key);
                    assert(self.entries@[p].0 == *key);
                }
                return Some(i);
            }
            i = i + 1;
        }
        None
    }

    /// Insert a key-value pair into the ring buffer
    pub fn insert(&mut self, key: K, value: V)
        requires
            vstd::laws_eq::obeys_concrete_eq::<K>(),
            old(self).capacity() > 0,
        ensures
            final(self)@ == after_insert(old(self)@, old(self).capacity(), key, value),
            final(self).capacity() == old(self).capacity(),
            lookup(final(self)@, key) == Some(value),
    {
        proof {
            use_type_invariant(&*self);
            lemma_get_after_insert(self.entries@, self.capacity as nat, key, value);
        }
        let found = self.find(&key);
        let mut entries: Vec<(K, V)> = Vec::new();
        std::mem::swap(&mut entries, &mut self.entries);
        let ghost s0 = entries@;
        match found {
            Some(i) => {
                proof {
                    assert forall|a: int, b: int| 0 <= a < b < s0.len() implies #[trigger] s0.update(
                        i as int,
                        (key, value),
                    )[a].0 != #[trigger] s0.update(i as int, (key, value))[b].0 by {
                        if a == i as int {
                            assert(s0[b].0 != s0[a].0);
                        }
                        if b == i as int {
                            assert(s0[a].0 != s0[b].0);
                        }
                    }
                }
                entries.set(i, (key, value));
            },
            None => {
                if entries.len() >= self.capacity {
                    let _ = entries.remove(0);
                }
                proof {
                    let s = entries@;
                    assert forall|a: int, b: int| 0 <= a < b < s.len() + 1 implies #[trigger] s.push(
                        (key, value),
                    )[a].0 != #[trigger] s.push((key, value))[b].0 by {
                        if b == s.len() {
                            assert(s[a] == s0[a + (s0.len() - s.len())]);
                        }
                    }
                }
                entries.push((key, value));
            },
        }
        self.entries = entries;
    }

    pub fn get(&self, key: &K) -> (r: Option<&V>)
        requires
            vstd::laws_eq::obeys_concrete_eq::<K>(),
        ensures
            r == (match lookup(self@, *key) {
                Some(v) => Some(&v),
                None => None::<&V>,
            }),
    {
        match self.find(key) {
            Some(i) => {
                proof {
                    let p = position(self@, *key);
                    assert(has_key(self@, *key));
                    assert(0 <= p < self.entries.len());
                    assert(p == i as int);
                }
                Some(&self.entries[i].1)
            },
            None => None,
        }
    }

    pub fn remove(&mut self, key: &K) -> (r: Option<V>)
        requires
            vstd::laws_eq::obeys_concrete_eq::<K>(),
        ensures
            r == lookup(old(self)@, *key),
            final(self)@ == after_remove(old(self)@, *key),
            final(self).capacity() == old(self).capacity(),
    {
        proof {
            use_type_invariant(&*self);
        }
        match self.find(key) {
            Some(i) => {
                let mut entries: Vec<(K, V)> = Vec::new();
                std::mem::swap(&mut entries, &mut self.entries);
                let ghost s0 = entries@;
                let (_, v) = entries.remove(i);
                proof {
                    let t = entries@;
                    assert forall|a: int, b: int| 0 <= a < b < t.len() implies #[trigger] t[a].0
                        != #[trigger] t[b].0 by {
                        let a0 = if a < i { a } else { a + 1 };
                        let b0 = if b < i { b } else { b + 1 };
                        assert(t[a] == s0[a0]);
                        assert(t[b] == s0[b0]);
                    }
                }
                self.entries = entries;
                Some(v)
            },
            None => None,
        }
    }

    pub fn len(&self) -> (r: usize)
        ensures
            r == self@.len(),
            r <= self.capacity(),
    {
        proof {
            use_type_invariant(self);
        }
        self.entries.len()
    }

    pub fn is_empty(&self) -> (r: bool)
        ensures
            r == (self@.len() == 0),
    {
        self.entries.len() == 0
    }

    /// The most recently added entry, if any.
    pub fn newest(&self) -> (r: Option<(&K, &V)>)
        ensures
            r == (if self@.len() > 0 {
                Some((&self@.last().0, &self@.last().1))
            } else {
                None
            }),
    {
        let n = self.entries.len();
        if n > 0 {
            let e = &self.entries[n - 1];
            Some((&e.0, &e.1))
        } else {
            None
        }
    }

    /// The values, oldest first.
    pub fn values(&self) -> (r: Vec<&V>)
        ensures
            r@.len() == self@.len(),
            forall|i: int| 0 <= i < self@.len() ==> *r@[i] == #[trigger] self@[i].1,
    {
        let mut out: Vec<&V> = Vec::new();
        let mut i: usize = 0;
        while i < self.entries.len()
            invariant
                i <= self.entries@.len(),
                out@.len() == i,
                forall|j: int| 0 <= j < i ==> *out@[j] == #[trigger] self.entries@[j].1,
            decreases self.entries@.len() - i,
        {
            out.push(&self.entries[i].1);
            i = i + 1;
        }
        out
    }

    /// The entries, oldest first; no key occurs twice.
    pub fn key_values(&self) -> (r: Vec<(&K, &V)>)
        ensures
            distinct_keys(self@),
            r@.len() == self@.len(),
            forall|i: int|
                0 <= i < self@.len() ==> *r@[i].0 == #[trigger] self@[i].0 && *r@[i].1 == self@[i].1,
    {
        proof {
            use_type_invariant(self);
        }
        let mut out: Vec<(&K, &V)> = Vec::new();
        let mut i: usize = 0;
        while i < self.entries.len()
            invariant
                i <= self.entries@.len(),
                out@.len() == i,
                forall|j: int|
                    0 <= j < i ==> *out@[j].0 == #[trigger] self.entries@[j].0 && *out@[j].1
                        == self.entries@[j].1,
            decreases self.entries@.len() - i,
        {
            let e = &self.entries[i];
            out.push((&e.0, &e.1));
            i = i + 1;
        }
        out
    }
}

/// Reading a key right after writing it gives the value written.
pub proof fn lemma_get_after_insert<K, V>(s: Seq<(K, V)>, cap: nat, k: K, v: V)
    requires
        distinct_keys(s),
        s.len() <= cap,
        cap > 0,
    ensures
        lookup(after_insert(s, cap, k, v), k) == Some(v),
{
    let t = after_insert(s, cap, k, v);
    if has_key(s, k) {
        let p = position(s, k);
        assert(t[p].0 == k);
        let q = position(t, k);
        assert(t[q].0 == k);
        if q != p {
            assert(s[q].0 == k);
        }
    } else {
        let n = t.len() - 1;
        assert(t[n].0 == k);
        let q = position(t, k);
        assert(t[q].0 == k);
        if q != n {
            if s.len() >= cap {
                assert(t[q] == s[q + 1]);
            } else {
                assert(t[q] == s[q]);
            }
        }
    }
}

/// Inserting keeps the keys distinct and the entries within capacity, and
/// leaves every other key's value alone, but for the oldest key of a full
/// map when the inserted key is new: that one leaves.
pub proof fn lemma_insert_others<K, V>(s: Seq<(K, V)>, cap: nat, k: K, v: V, other: K)
    requires
        distinct_keys(s),
        s.len() <= cap,
        cap > 0,
        other != k,
    ensures
        distinct_keys(after_insert(s, cap, k, v)),
        after_insert(s, cap, k, v).len() <= cap,
        lookup(after_insert(s, cap, k, v), other) == (if !has_key(s, k) && s.len() >= cap
            && s[0].0 == other {
            None
        } else {
            lookup(s, other)
        }),
{
    let t = after_insert(s, cap, k, v);
    if has_key(s, k) {
        let p = position(s, k);
        assert forall|a: int, b: int| 0 <= a < b < t.len() implies #[trigger] t[a].0
            != #[trigger] t[b].0 by {
            if a == p {
                assert(s[b].0 != s[a].0);
            }
            if b == p {
                assert(s[a].0 != s[b].0);
            }
        }
        if has_key(s, other) {
            let q = position(s, other);
            assert(t[q].0 == other);
            let r = position(t, other);
            assert(t[r].0 == other);
            assert(r == q);
        } else {
            if has_key(t, other) {
                let r = position(t, other);
                assert(s[r].0 == other);
            }
        }
    } else if s.len() >= cap {
        let n = t.len() - 1;
        assert forall|a: int, b: int| 0 <= a < b < t.len() implies #[trigger] t[a].0
            != #[trigger] t[b].0 by {
            if b == n {
                assert(t[a] == s[a + 1]);
            } else {
                assert(t[a] == s[a + 1]);
                assert(t[b] == s[b + 1]);
            }
        }
        if s[0].0 == other {
            if has_key(t, other) {
                let r = position(t, other);
                assert(t[r] == s[r + 1]);
            }
        } else if has_key(s, other) {
            let q = position(s, other);
            assert(q != 0);
            assert(t[q - 1] == s[q]);
            let r = position(t, other);
            assert(t[r].0 == other);
            assert(t[r] == s[r + 1]);
        } else {
            if has_key(t, other) {
                let r = position(t, other);
                assert(t[r] == s[r + 1]);
            }
        }
    } else {
        let n = t.len() - 1;
        assert forall|a: int, b: int| 0 <= a < b < t.len() implies #[trigger] t[a].0
            != #[trigger] t[b].0 by {
            if b == n {
                assert(t[a] == s[a]);
            } else {
                assert(t[a] == s[a]);
                assert(t[b] == s[b]);
            }
        }
        if has_key(s, other) {
            let q = position(s, other);
            assert(t[q] == s[q]);
            let r = position(t, other);
            assert(t[r].0 == other);
            assert(t[r] == s[r]);
        } else {
            if has_key(t, other) {
                let r = position(t, other);
                assert(t[r] == s[r]);
            }
        }
    }
}

/// After a key is removed, reading it gives nothing.
pub proof fn lemma_get_after_remove<K, V>(s: Seq<(K, V)>, k: K)
    requires
        distinct_keys(s),
    ensures
        lookup(after_remove(s, k), k) is None,
        after_remove(s, k).len() == s.len() - (if has_key(s, k) {
            1int
        } else {
            0int
        }),
{
    let t = after_remove(s, k);
    if has_key(s, k) {
        let p = position(s, k);
        if has_key(t, k) {
            let r = position(t, k);
            if r < p {
                assert(t[r] == s[r]);
            } else {
                assert(t[r] == s[r + 1]);
            }
        }
    }
}

/// Giving the entry of a present key a new value keeps the keys distinct,
/// and changes what that key reads and nothing else.
pub proof fn lemma_update_entry<K, V>(s: Seq<(K, V)>, k: K, v: V)
    requires
        distinct_keys(s),
        has_key(s, k),
    ensures
        distinct_keys(s.update(position(s, k), (k, v))),
        lookup(s.update(position(s, k), (k, v)), k) == Some(v),
        forall|o: K| o != k ==> #[trigger] lookup(s.update(position(s, k), (k, v)), o) == lookup(s, o),
{
    let p = position(s, k);
    let t = s.update(p, (k, v));
    assert forall|a: int, b: int| 0 <= a < b < t.len() implies #[trigger] t[a].0 != #[trigger] t[b].0 by {
        if a == p {
            assert(s[b].0 != s[a].0);
        }
        if b == p {
            assert(s[a].0 != s[b].0);
        }
    }
    assert(t[p].0 == k);
    let q = position(t, k);
    assert(t[q].0 == k);
    assert forall|o: K| o != k implies #[trigger] lookup(t, o) == lookup(s, o) by {
        if has_key(s, o) {
            let i = position(s, o);
            assert(t[i].0 == o);
            let j = position(t, o);
            assert(t[j].0 == o);
        }
        if has_key(t, o) {
            let j = position(t, o);
            assert(s[j].0 == o);
        }
    }
}

/// Appending the entry of a new key keeps the keys distinct, and changes
/// what that key reads and nothing else.
pub proof fn lemma_push_entry<K, V>(s: Seq<(K, V)>, k: K, v: V)
    requires
        distinct_keys(s),
        !has_key(s, k),
    ensures
        distinct_keys(s.push((k, v))),
        lookup(s.push((k, v)), k) == Some(v),
        forall|o: K| o != k ==> #[trigger] lookup(s.push((k, v)), o) == lookup(s, o),
{
    let t = s.push((k, v));
    let n = s.len() as int;
    assert forall|a: int, b: int| 0 <= a < b < t.len() implies #[trigger] t[a].0 != #[trigger] t[b].0 by {
        assert(t[a] == s[a]);
        if b < n {
            assert(t[b] == s[b]);
        }
    }
    assert(t[n].0 == k);
    let q = position(t, k);
    assert(t[q].0 == k);
    if q != n {
        assert(t[q] == s[q]);
    }
    assert forall|o: K| o != k implies #[trigger] lookup(t, o) == lookup(s, o) by {
        if has_key(s, o) {
            let i = position(s, o);
            assert(t[i] == s[i]);
            let j = position(t, o);
            assert(t[j].0 == o);
            assert(t[j] == s[j]);
        }
        if has_key(t, o) {
            let j = position(t, o);
            assert(t[j] == s[j]);
        }
    }
}

} // verus!
