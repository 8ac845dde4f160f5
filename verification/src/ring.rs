//! Fixed-capacity history for sparklines.
use std::collections::VecDeque;
use vstd::prelude::*;

verus! {

broadcast use vstd::std_specs::vecdeque::group_vec_dequeue_axioms;

/// The last `cap` values pushed, oldest first.
pub struct Ring<T> {
    buf: VecDeque<T>,
    cap: usize,
}

/// What a push does to the held values `s` of a ring of capacity `cap`:
/// append `v`, dropping the oldest first when already full.
pub open spec fn pushed<T>(s: Seq<T>, cap: nat, v: T) -> Seq<T> {
    if s.len() == cap {
        s.drop_first().push(v)
    } else {
        s.push(v)
    }
}

/// The last `n` values of `h`, or all of them when there are fewer.
pub open spec fn last_n<T>(h: Seq<T>, n: nat) -> Seq<T> {
    if h.len() <= n {
        h
    } else {
        h.skip(h.len() - n)
    }
}

/// A ring holds the most recent values: if it held the last `cap` values of
/// a history `h`, after pushing `v` it holds the last `cap` values of `h`
/// followed by `v`.
pub proof fn lemma_push_keeps_most_recent<T>(h: Seq<T>, cap: nat, v: T)
    requires
        cap >= 1,
    ensures
        pushed(last_n(h, cap), cap, v) == last_n(h.push(v), cap),
{
    let held = last_n(h, cap);
    if h.len() < cap {
        assert(pushed(held, cap, v) =~= h.push(v));
    } else {
        assert(held.len() == cap);
        assert(held.drop_first().push(v) =~= h.push(v).skip(h.push(v).len() - cap));
    }
}

impl<T> View for Ring<T> {
    type V = Seq<T>;

    closed spec fn view(&self) -> Seq<T> {
        self.buf@
    }
}

impl<T> Ring<T> {
    /// The ring holds at most its capacity, which is at least one.
    pub closed spec fn wf(&self) -> bool {
        &&& 1 <= self.cap
        &&& self.buf@.len() <= self.cap
    }

    /// How many values the ring keeps.
    pub closed spec fn capacity(&self) -> nat {
        self.cap as nat
    }

    /// An empty ring keeping the last `max(cap, 1)` values.
    pub fn new(cap: usize) -> (r: Self)
        ensures
            r.wf(),
            r@ == Seq::<T>::empty(),
            r.capacity() == if cap == 0 { 1 } else { cap as nat },
    {
        Ring { buf: VecDeque::with_capacity(cap), cap: if cap == 0 { 1 } else { cap } }
    }

    /// Appends `v`, dropping the oldest value when the ring is full.
    pub fn push(&mut self, v: T)
        requires
            old(self).wf(),
        ensures
            final(self).wf(),
            final(self)@ == pushed(old(self)@, old(self).capacity(), v),
            final(self).capacity() == old(self).capacity(),
            final(self)@.len() <= final(self).capacity(),
    {
        if self.buf.len() == self.cap {
            self.buf.pop_front();
        }
        self.buf.push_back(v);
    }

    /// The held values, oldest first.
    pub fn iter(&self) -> (it: std::collections::vec_deque::Iter<'_, T>)
        ensures
            vstd::std_specs::iter::IteratorSpec::remaining(&it) == self@.map_values(|x: T| &x),
    {
        let it = self.buf.iter();
        it
    }

    /// How many values the ring holds.
    pub fn len(&self) -> (n: usize)
        ensures
            n == self@.len(),
            self.wf() ==> n <= self.capacity(),
    {
        self.buf.len()
    }

    /// Whether the ring holds nothing.
    pub fn is_empty(&self) -> (b: bool)
        ensures
            b == (self@.len() == 0),
    {
        self.buf.len() == 0
    }

    /// Drops every value; the capacity stays.
    pub fn clear(&mut self)
        requires
            old(self).wf(),
        ensures
            final(self).wf(),
            final(self)@ == Seq::<T>::empty(),
            final(self).capacity() == old(self).capacity(),
    {
        self.buf.clear();
    }
}

} // verus!
