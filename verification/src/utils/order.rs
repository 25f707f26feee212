use vstd::prelude::*;

verus! {

/// Item `a` sorts before item `b`: a smaller key, or the same key and an
/// earlier place (a stable order).
pub open spec fn key_before(keys: Seq<i64>, a: int, b: int) -> bool {
    keys[a] < keys[b] || (keys[a] == keys[b] && a < b)
}

/// The indexes in `s` are valid for `keys` and sorted by `key_before`,
/// each coming once.
pub open spec fn stably_sorted(keys: Seq<i64>, s: Seq<usize>) -> bool {
    &&& forall|i: int| 0 <= i < s.len() ==> #[trigger] s[i] < keys.len()
    &&& forall|i: int, j: int|
        0 <= i < j < s.len() ==> key_before(keys, #[trigger] s[i] as int, #[trigger] s[j] as int)
}

/// Puts index `x` in its place in the sorted `out`.
fn insert_by_key(out: &mut Vec<usize>, keys: &[i64], x: usize)
    requires
        x < keys@.len(),
        stably_sorted(keys@, old(out)@),
        !old(out)@.contains(x),
        old(out)@.no_duplicates(),
    ensures
        stably_sorted(keys@, final(out)@),
        final(out)@.no_duplicates(),
        forall|y: usize| #[trigger] final(out)@.contains(y) <==> (old(out)@.contains(y) || y == x),
{
    let ghost s = out@;
    let mut k: usize = 0;
    while k < out.len() && (keys[out[k]] < keys[x] || (keys[out[k]] == keys[x] && out[k] < x))
        invariant
            out@ == s,
            k <= s.len(),
            stably_sorted(keys@, s),
            x < keys@.len(),
            forall|j: int| 0 <= j < k ==> key_before(keys@, #[trigger] s[j] as int, x as int),
        decreases s.len() - k,
    {
        k = k + 1;
    }
    proof {
        assert forall|j: int| k <= j < s.len() implies key_before(keys@, x as int, #[trigger] s[j] as int) by {
            if j == k {
                assert(s[j] != x);
            } else {
                assert(key_before(keys@, s[k as int] as int, s[j] as int));
                assert(s[k as int] != x);
            }
        }
    }
    out.insert(k, x);
    proof {
        let t = out@;
        assert(t == s.insert(k as int, x));
        assert forall|a: int, b: int| 0 <= a < b < t.len() implies key_before(
            keys@,
            #[trigger] t[a] as int,
            #[trigger] t[b] as int,
        ) by {
            if b == k {
                assert(t[a] == s[a]);
            } else if a == k {
                assert(t[b] == s[b - 1]);
            } else if a < k && b < k {
                assert(t[a] == s[a] && t[b] == s[b]);
            } else if a < k {
                assert(t[a] == s[a] && t[b] == s[b - 1]);
            } else {
                assert(t[a] == s[a - 1] && t[b] == s[b - 1]);
            }
        }
        assert forall|i: int| 0 <= i < t.len() implies #[trigger] t[i] < keys@.len() by {
            if i < k {
                assert(t[i] == s[i]);
            } else if i > k {
                assert(t[i] == s[i - 1]);
            }
        }
        assert forall|a: int, b: int| 0 <= a < t.len() && 0 <= b < t.len() && a != b implies t[a]
            != t[b] by {
            if a < b {
                assert(key_before(keys@, t[a] as int, t[b] as int));
            } else {
                assert(key_before(keys@, t[b] as int, t[a] as int));
            }
        }
        assert forall|y: usize| #[trigger] t.contains(y) <==> (s.contains(y) || y == x) by {
            if t.contains(y) {
                let i = choose|i: int| 0 <= i < t.len() && t[i] == y;
                if i < k {
                    assert(s[i] == y);
                } else if i > k {
                    assert(s[i - 1] == y);
                }
            }
            if s.contains(y) {
                let i = choose|i: int| 0 <= i < s.len() && s[i] == y;
                if i < k {
                    assert(t[i] == y);
                } else {
                    assert(t[i + 1] == y);
                }
            }
            if y == x {
                assert(t[k as int] == x);
            }
        }
    }
}

/// The indexes `i` of `keys` with `keep[i]`, sorted by key and, for equal
/// keys, by place: the order a stable sort by key puts those items in.
pub fn sorted_indices_where(keys: &[i64], keep: &[bool]) -> (r: Vec<usize>)
    requires
        keep@.len() == keys@.len(),
    ensures
        stably_sorted(keys@, r@),
        r@.no_duplicates(),
        forall|x: usize| #[trigger] r@.contains(x) <==> (x < keys@.len() && keep@[x as int]),
{
    let mut out: Vec<usize> = Vec::new();
    let mut i: usize = 0;
    while i < keys.len()
        invariant
            i <= keys@.len(),
            keep@.len() == keys@.len(),
            stably_sorted(keys@, out@),
            out@.no_duplicates(),
            forall|x: usize| #[trigger] out@.contains(x) <==> (x < i && keep@[x as int]),
        decreases keys@.len() - i,
    {
        if keep[i] {
            insert_by_key(&mut out, keys, i);
        }
        i = i + 1;
    }
    out
}

/// The indexes of `keys`, sorted by key and, for equal keys, by place: the
/// order a stable sort by key puts the items in.
pub fn sorted_indices(keys: &[i64]) -> (r: Vec<usize>)
    ensures
        stably_sorted(keys@, r@),
        r@.no_duplicates(),
        forall|x: usize| #[trigger] r@.contains(x) <==> x < keys@.len(),
{
    let mut keep: Vec<bool> = Vec::new();
    let mut i: usize = 0;
    while i < keys.len()
        invariant
            i <= keys@.len(),
            keep@.len() == i,
            forall|j: int| 0 <= j < i ==> #[trigger] keep@[j],
        decreases keys@.len() - i,
    {
        keep.push(true);
        i = i + 1;
    }
    sorted_indices_where(keys, keep.as_slice())
}

/// Whether `x` is among `keys`.
fn listed(keys: &[i64], x: i64) -> (r: bool)
    ensures
        r == keys@.contains(x),
{
    let mut i: usize = 0;
    while i < keys.len()
        invariant
            i <= keys@.len(),
            forall|j: int| 0 <= j < i ==> keys@[j] != x,
        decreases keys@.len() - i,
    {
        if keys[i] == x {
            assert(keys@[i as int] == x);
            return true;
        }
        i = i + 1;
    }
    false
}

/// For two series keyed by date: the places of the items of `first` whose
/// date `second` has too, sorted by date and then by place.
pub fn common_sorted_indices(first: &[i64], second: &[i64]) -> (r: Vec<usize>)
    ensures
        stably_sorted(first@, r@),
        r@.no_duplicates(),
        forall|x: usize| #[trigger] r@.contains(x) <==> (x < first@.len() && second@.contains(first@[x as int])),
{
    let mut keep: Vec<bool> = Vec::new();
    let mut i: usize = 0;
    while i < first.len()
        invariant
            i <= first@.len(),
            keep@.len() == i,
            forall|j: int| 0 <= j < i ==> #[trigger] keep@[j] == second@.contains(first@[j]),
        decreases first@.len() - i,
    {
        keep.push(listed(second, first[i]));
        i = i + 1;
    }
    sorted_indices_where(first, keep.as_slice())
}

} // verus!
