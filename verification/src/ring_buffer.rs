use std::collections::VecDeque;
use vstd::prelude::*;

verus! {

broadcast use vstd::std_specs::vecdeque::group_vec_dequeue_axioms;

/// The last `capacity` values pushed; index 0 is the newest value.
#[derive(Debug, Clone)]
pub struct RingBuffer<T> {
    pub vec: VecDeque<T>,
    pub capacity: usize,
}

/// The contents, newest first, after pushing `t` onto contents `s` of a
/// buffer whose capacity is `cap`: when `s` holds exactly `cap > 0` values
/// the oldest one is dropped first.
pub open spec fn pushed<T>(s: Seq<T>, cap: nat, t: T) -> Seq<T> {
    if s.len() == cap && cap > 0 {
        seq![t] + s.drop_last()
    } else {
        seq![t] + s
    }
}

/// The contents after pushing every value of `xs`, first to last.
pub open spec fn pushed_all<T>(s: Seq<T>, cap: nat, xs: Seq<T>) -> Seq<T>
    decreases xs.len(),
{
    if xs.len() == 0 {
        s
    } else {
        pushed(pushed_all(s, cap, xs.drop_last()), cap, xs.last())
    }
}

impl<T> View for RingBuffer<T> {
    type V = Seq<T>;

    open spec fn view(&self) -> Seq<T> {
        self.vec@
    }
}

impl<T> RingBuffer<T> {
    /// An empty buffer that keeps at most `capacity` values.
    pub fn new(capacity: usize) -> (r: Self)
        ensures
            r@ == Seq::<T>::empty(),
            r.capacity == capacity,
    {
        Self { vec: VecDeque::with_capacity(capacity), capacity }
    }

    /// Puts `t` in front; a full buffer first drops its oldest value.
    pub fn push(&mut self, t: T)
        ensures
            final(self)@ == pushed(old(self)@, old(self).capacity as nat, t),
            final(self).capacity == old(self).capacity,
    {
        if self.vec.len() == self.capacity {
            self.vec.pop_back();
        }
        self.vec.push_front(t);
        assert(self@ =~= pushed(old(self)@, old(self).capacity as nat, t));
    }

    /// Whether the buffer holds exactly `capacity` values.
    pub fn full(&self) -> (r: bool)
        ensures
            r == (self@.len() == self.capacity),
    {
        self.vec.len() == self.capacity
    }

    /// Removes every value and returns them, newest first.
    pub fn take(&mut self) -> (r: Vec<T>)
        ensures
            r@ == old(self)@,
            final(self)@ == Seq::<T>::empty(),
            final(self).capacity == old(self).capacity,
    {
        let mut out: Vec<T> = Vec::new();
        let ghost all = self@;
        while self.vec.len() > 0
            invariant
                out@ + self.vec@ == all,
                self.capacity == old(self).capacity,
            decreases self.vec@.len(),
        {
            let ghost before = self.vec@;
            match self.vec.pop_front() {
                Some(x) => {
                    out.push(x);
                    assert(out@ + self.vec@ =~= all) by {
                        assert(before =~= seq![x] + self.vec@);
                    }
                },
                None => {},
            }
        }
        assert(out@ =~= all);
        out
    }

    /// Whether the buffer holds no value.
    pub fn is_empty(&self) -> (r: bool)
        ensures
            r == (self@.len() == 0),
    {
        self.vec.len() == 0
    }

    /// How many values the buffer holds.
    pub fn len(&self) -> (r: usize)
        ensures
            r == self@.len(),
    {
        self.vec.len()
    }
}

/// A buffer with room for at least one value never grows beyond its
/// capacity, and once full it stays full.
pub proof fn lemma_push_within_capacity<T>(s: Seq<T>, cap: nat, t: T)
    requires
        cap > 0,
        s.len() <= cap,
    ensures
        pushed(s, cap, t).len() <= cap,
        s.len() == cap ==> pushed(s, cap, t).len() == cap,
        pushed(s, cap, t)[0] == t,
{
}

/// Pushing values `xs` onto contents `s` of a buffer with capacity
/// `cap > 0` leaves the last `cap` values of the whole history, where the
/// history is `s` oldest first followed by `xs`; the contents list them
/// newest first.
pub proof fn lemma_keeps_latest<T>(s: Seq<T>, cap: nat, xs: Seq<T>)
    requires
        cap > 0,
        s.len() <= cap,
    ensures
        ({
            let hist = s.reverse() + xs;
            let kept = if hist.len() > cap { cap } else { hist.len() };
            pushed_all(s, cap, xs) == hist.subrange(hist.len() - kept, hist.len() as int).reverse()
        }),
    decreases xs.len(),
{
    let hist = s.reverse() + xs;
    if xs.len() == 0 {
        assert(hist =~= s.reverse());
        assert(s.reverse().reverse() =~= s);
        assert(hist.subrange(0, hist.len() as int) =~= hist);
    } else {
        let ys = xs.drop_last();
        lemma_keeps_latest(s, cap, ys);
        let h0 = s.reverse() + ys;
        let k0 = if h0.len() > cap { cap } else { h0.len() };
        let prev = pushed_all(s, cap, ys);
        assert(prev == h0.subrange(h0.len() - k0, h0.len() as int).reverse());
        assert(prev.len() == k0);
        assert(hist =~= h0.push(xs.last()));
        let k1 = if hist.len() > cap { cap } else { hist.len() };
        let target = hist.subrange(hist.len() - k1, hist.len() as int).reverse();
        if prev.len() == cap {
            assert(k1 == cap);
            assert(target =~= seq![xs.last()] + prev.drop_last());
        } else {
            assert(k1 == k0 + 1);
            assert(target =~= seq![xs.last()] + prev);
        }
    }
}

} // verus!
