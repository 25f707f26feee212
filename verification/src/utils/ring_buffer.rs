use std::collections::VecDeque;
use vstd::prelude::*;

use crate::ring_buffer::pushed;

verus! {

broadcast use vstd::std_specs::vecdeque::group_vec_dequeue_axioms;

/// Last "capacity" data from current datum.
/// 0th index is the newest datum, last index is oldest datum.
#[derive(Debug, Clone)]
pub struct RingBuffer<T> {
    pub vec: VecDeque<T>,
    pub capacity: usize,
    pub id: String,
}

impl<T> View for RingBuffer<T> {
    type V = Seq<T>;

    open spec fn view(&self) -> Seq<T> {
        self.vec@
    }
}

impl<T: Clone> RingBuffer<T> {
    /// An empty buffer named `id` that keeps at most `capacity` values.
    pub fn new(capacity: usize, id: String) -> (r: Self)
        ensures
            r@ == Seq::<T>::empty(),
            r.capacity == capacity,
            r.id@ == id@,
    {
        Self { vec: VecDeque::with_capacity(capacity), capacity, id }
    }

    /// Puts `t` in front; a full buffer first drops its oldest value.
    pub fn push(&mut self, t: T)
        ensures
            final(self)@ == pushed(old(self)@, old(self).capacity as nat, t),
            final(self).capacity == old(self).capacity,
            final(self).id == old(self).id,
    {
        if self.vec.len() == self.capacity {
            self.vec.pop_back();
        }
        self.vec.push_front(t);
        assert(self@ =~= pushed(old(self)@, old(self).capacity as nat, t));
    }

    /// The newest value, if any.
    pub fn front(&self) -> (r: Option<&T>)
        ensures
            r == (if self@.len() > 0 {
                Some(&self@[0])
            } else {
                None
            }),
    {
        if self.vec.len() > 0 {
            Some(&self.vec[0])
        } else {
            None
        }
    }

    /// Whether the buffer holds exactly `capacity` values.
    pub fn full(&self) -> (r: bool)
        ensures
            r == (self@.len() == self.capacity),
    {
        self.vec.len() == self.capacity
    }

    /// Removes every value and returns them, newest first.
    pub fn take(&mut self) -> (r: Vec<T>)
        ensures
            r@ == old(self)@,
            final(self)@ == Seq::<T>::empty(),
            final(self).capacity == old(self).capacity,
            final(self).id == old(self).id,
    {
        let mut out: Vec<T> = Vec::new();
        let ghost all = self@;
        while self.vec.len() > 0
            invariant
                out@ + self.vec@ == all,
                self.capacity == old(self).capacity,
                self.id == old(self).id,
            decreases self.vec@.len(),
        {
            let ghost before = self.vec@;
            match self.vec.pop_front() {
                Some(x) => {
                    out.push(x);
                    assert(out@ + self.vec@ =~= all) by {
                        assert(before =~= seq![x] + self.vec@);
                    }
                },
                None => {},
            }
        }
        assert(out@ =~= all);
        out
    }

    /// Whether the buffer holds no value.
    pub fn is_empty(&self) -> (r: bool)
        ensures
            r == (self@.len() == 0),
    {
        self.vec.len() == 0
    }

    /// How many values the buffer holds.
    pub fn len(&self) -> (r: usize)
        ensures
            r == self@.len(),
    {
        self.vec.len()
    }

    /// The newest value for which `f` answers true.
    pub fn find(&self, f: impl Fn(&T) -> bool) -> (r: Option<&T>)
        requires
            forall|i: int| 0 <= i < self@.len() ==> f.requires((&self@[i],)),
        ensures
            match r {
                Some(x) => exists|i: int|
                    0 <= i < self@.len() && x == &self@[i] && f.ensures((&self@[i],), true) && (
                    forall|j: int| 0 <= j < i ==> f.ensures((&self@[j],), false)),
                None => forall|j: int| 0 <= j < self@.len() ==> f.ensures((&self@[j],), false),
            },
    {
        let n = self.vec.len();
        let mut i: usize = 0;
        while i < n
            invariant
                n == self@.len(),
                i <= n,
                forall|k: int| 0 <= k < self@.len() ==> f.requires((&self@[k],)),
                forall|j: int| 0 <= j < i ==> f.ensures((&self@[j],), false),
            decreases n - i,
        {
            let item = &self.vec[i];
            if f(item) {
                return Some(item);
            }
            i = i + 1;
        }
        None
    }

    /// Clones of the values, oldest first.
    pub fn vec(&self) -> (r: Vec<T>)
        ensures
            r@.len() == self@.len(),
            forall|i: int| 0 <= i < r@.len() ==> cloned(self@[self@.len() - 1 - i], r@[i]),
    {
        let n = self.vec.len();
        let mut out: Vec<T> = Vec::new();
        let mut k: usize = n;
        while k > 0
            invariant
                n == self@.len(),
                k <= n,
                out@.len() == n - k,
                forall|i: int| 0 <= i < out@.len() ==> cloned(self@[n - 1 - i], out@[i]),
            decreases k,
        {
            k = k - 1;
            out.push(self.vec[k].clone());
        }
        out
    }

    /// Clones of the values, newest first.
    pub fn rev_vec(&self) -> (r: Vec<T>)
        ensures
            r@.len() == self@.len(),
            forall|i: int| 0 <= i < r@.len() ==> cloned(self@[i], r@[i]),
    {
        let n = self.vec.len();
        let mut out: Vec<T> = Vec::new();
        let mut k: usize = 0;
        while k < n
            invariant
                n == self@.len(),
                k <= n,
                out@.len() == k,
                forall|i: int| 0 <= i < out@.len() ==> cloned(self@[i], out@[i]),
            decreases n - k,
        {
            out.push(self.vec[k].clone());
            k = k + 1;
        }
        out
    }
}

} // verus!
