//! The bounded price buffer that feeds the indicators.

use std::collections::VecDeque;
use vstd::prelude::*;

verus! {

/// The most recent `cap` elements of `history`, oldest first.
pub open spec fn recent<T>(history: Seq<T>, cap: nat) -> Seq<T> {
    if history.len() <= cap {
        history
    } else {
        history.subrange(history.len() - cap, history.len() as int)
    }
}

/// A first-in first-out window that keeps at most `capacity` samples:
/// pushing onto a full window drops its oldest sample.
pub struct PriceWindow<T> {
    samples: VecDeque<T>,
    capacity: usize,
}

impl<T> View for PriceWindow<T> {
    type V = Seq<T>;

    closed spec fn view(&self) -> Seq<T> {
        self.samples@
    }
}

impl<T> PriceWindow<T> {
    #[verifier::type_invariant]
    spec fn bounded(self) -> bool {
        self.samples@.len() <= self.capacity
    }

    /// The largest number of samples the window holds.
    pub closed spec fn cap(&self) -> nat {
        self.capacity as nat
    }

    /// An empty window holding at most `capacity` samples.
    pub fn new(capacity: usize) -> (w: Self)
        ensures
            w@ == Seq::<T>::empty(),
            w.cap() == capacity,
    {
        PriceWindow { samples: VecDeque::with_capacity(capacity), capacity }
    }

    /// Appends `x`; when that takes the window past its capacity, the
    /// oldest sample is dropped.
    pub fn push(&mut self, x: T)
        ensures
            final(self)@ == recent(old(self)@.push(x), old(self).cap()),
            final(self).cap() == old(self).cap(),
    {
        proof {
            use_type_invariant(&*self);
        }
        let mut samples: VecDeque<T> = VecDeque::new();
        std::mem::swap(&mut samples, &mut self.samples);
        let ghost before = samples@;
        samples.push_back(x);
        if samples.len() > self.capacity {
            let _ = samples.pop_front();
            assert(samples@ =~= recent(before.push(x), self.capacity as nat));
        }
        self.samples = samples;
    }

    /// The number of samples held.
    pub fn len(&self) -> (n: usize)
        ensures
            n == self@.len(),
            n <= self.cap(),
    {
        proof {
            use_type_invariant(self);
        }
        self.samples.len()
    }
}

impl<T: Copy> PriceWindow<T> {
    /// The samples, oldest first.
    pub fn to_vec(&self) -> (v: Vec<T>)
        ensures
            v@ == self@,
    {
        let n = self.samples.len();
        let mut v: Vec<T> = Vec::with_capacity(n);
        let mut i: usize = 0;
        while i < n
            invariant
                n == self@.len(),
                i <= n,
                v@ == self@.take(i as int),
            decreases n - i,
        {
            v.push(self.samples[i]);
            i = i + 1;
            assert(v@ =~= self@.take(i as int));
        }
        assert(v@ =~= self@);
        v
    }
}

/// A window that has only ever been fed through `push` holds the most
/// recent samples of everything it was fed: if it held the recent part of
/// `history` before a push of `x`, it holds the recent part of
/// `history` followed by `x` afterwards.
pub proof fn law_window_keeps_recent<T>(history: Seq<T>, x: T, cap: nat)
    ensures
        recent(recent(history, cap).push(x), cap) == recent(history.push(x), cap),
{
    let r = recent(history, cap);
    if history.len() <= cap {
        assert(r == history);
    } else {
        assert(recent(r.push(x), cap) =~= recent(history.push(x), cap));
    }
}

} // verus!
