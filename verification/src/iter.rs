//! An iterator over a sequence, with a window of its own.

use vstd::prelude::*;
use crate::blend::Blend;
use crate::linspaced::{Linspaced, LinspacedView};

verus! {

/// Gives the values of a sequence from the front and from the back. Its
/// window starts at index zero and has as many indices as the sequence had
/// left when the iterator was made.
pub struct IntoIter<T, const INCLUSIVE: bool> {
    linspace: Linspaced<T, INCLUSIVE>,
    lo: usize,
    hi: usize,
}

impl<T, const INCLUSIVE: bool> IntoIter<T, INCLUSIVE> {
    #[verifier::type_invariant]
    closed spec fn inv(&self) -> bool {
        self.lo <= self.hi <= self.linspace@.len <= usize::MAX
    }
}

impl<T, const INCLUSIVE: bool> View for IntoIter<T, INCLUSIVE> {
    type V = LinspacedView<T>;

    closed spec fn view(&self) -> LinspacedView<T> {
        LinspacedView { lo: self.lo as nat, hi: self.hi as nat, ..self.linspace@ }
    }
}

impl<T: Copy, const INCLUSIVE: bool> Clone for IntoIter<T, INCLUSIVE> {
    fn clone(&self) -> (r: Self)
        ensures
            r@ == self@,
    {
        proof {
            use_type_invariant(self);
        }
        IntoIter { linspace: self.linspace.clone(), lo: self.lo, hi: self.hi }
    }
}

impl<T: Blend, const INCLUSIVE: bool> IntoIter<T, INCLUSIVE> {
    /// Makes the iterator over `linspace`.
    pub fn new(linspace: Linspaced<T, INCLUSIVE>) -> (r: Self)
        ensures
            r@ == (LinspacedView { lo: 0, hi: linspace@.remaining(), ..linspace@ }),
    {
        let hi = linspace.len();
        IntoIter { linspace, lo: 0, hi }
    }
}

impl<T, const INCLUSIVE: bool> IntoIter<T, INCLUSIVE> {
    /// Whether nothing is left to give.
    pub fn is_empty(&self) -> (r: bool)
        ensures
            r == self@.is_empty(),
            self@.wf(),
    {
        proof {
            use_type_invariant(self);
        }
        self.lo >= self.hi
    }

    /// The number of values left to give.
    pub fn len(&self) -> (r: usize)
        ensures
            r == self@.remaining(),
            self@.wf(),
    {
        proof {
            use_type_invariant(self);
        }
        self.hi.saturating_sub(self.lo)
    }

    /// The number of values left to give, as a lower and an upper bound:
    /// both are exact.
    pub fn size_hint(&self) -> (r: (usize, Option<usize>))
        ensures
            r.0 == self@.remaining(),
            r.1 == Some(r.0),
    {
        proof {
            use_type_invariant(self);
        }
        (self.len(), self.hi.checked_sub(self.lo))
    }
}

impl<T: Blend, const INCLUSIVE: bool> IntoIter<T, INCLUSIVE> {
    /// Takes the next value from the front of an iterator that is not empty.
    pub fn forward_unchecked(&mut self) -> (v: T)
        requires
            !old(self)@.is_empty(),
        ensures
            old(self)@.yields(old(self)@.lo, v),
            final(self)@ == old(self)@.pull_front(),
    {
        proof {
            use_type_invariant(&*self);
        }
        let x = self.linspace.scale(self.lo);
        self.lo += 1;
        x
    }

    /// Takes the next value from the front, if any is left. An empty iterator
    /// stays as it is.
    pub fn forward(&mut self) -> (r: Option<T>)
        ensures
            final(self)@ == old(self)@.pull_front(),
            match r {
                Some(v) => !old(self)@.is_empty() && old(self)@.yields(old(self)@.lo, v),
                None => old(self)@.is_empty(),
            },
    {
        if !self.is_empty() {
            return Some(self.forward_unchecked());
        }
        None
    }

    /// Takes the next value from the back of an iterator that is not empty.
    pub fn backward_unchecked(&mut self) -> (v: T)
        requires
            !old(self)@.is_empty(),
        ensures
            old(self)@.yields((old(self)@.hi - 1) as nat, v),
            final(self)@ == old(self)@.pull_back(),
    {
        proof {
            use_type_invariant(&*self);
        }
        self.hi -= 1;
        let x = self.linspace.scale(self.hi);
        x
    }

    /// Takes the next value from the back, if any is left. An empty iterator
    /// stays as it is.
    pub fn backward(&mut self) -> (r: Option<T>)
        ensures
            final(self)@ == old(self)@.pull_back(),
            match r {
                Some(v) => !old(self)@.is_empty() && old(self)@.yields(
                    (old(self)@.hi - 1) as nat,
                    v,
                ),
                None => old(self)@.is_empty(),
            },
    {
        if !self.is_empty() {
            return Some(self.backward_unchecked());
        }
        None
    }

    /// Takes the next value from the front, if any is left.
    pub fn next(&mut self) -> (r: Option<T>)
        ensures
            final(self)@ == old(self)@.pull_front(),
            match r {
                Some(v) => !old(self)@.is_empty() && old(self)@.yields(old(self)@.lo, v),
                None => old(self)@.is_empty(),
            },
    {
        self.forward()
    }

    /// Takes the next value from the back, if any is left.
    pub fn next_back(&mut self) -> (r: Option<T>)
        ensures
            final(self)@ == old(self)@.pull_back(),
            match r {
                Some(v) => !old(self)@.is_empty() && old(self)@.yields(
                    (old(self)@.hi - 1) as nat,
                    v,
                ),
                None => old(self)@.is_empty(),
            },
    {
        self.backward()
    }

    /// The value at the offset `idx` from the front of the window, for an
    /// offset within it. The window stays as it is.
    pub fn get_unchecked(&self, idx: usize) -> (v: T)
        requires
            idx < self@.remaining(),
        ensures
            self@.yields(self@.lo + idx as nat, v),
    {
        proof {
            use_type_invariant(self);
        }
        let v = self.linspace.f()(self.lo + idx);
        assert(self.linspace@.yields((self.lo + idx) as nat, v));
        v
    }

    /// The value at the offset `idx` from the front of the window, or nothing
    /// where the offset lies beyond it. The window stays as it is.
    pub fn get(&self, idx: usize) -> (r: Option<T>)
        ensures
            match r {
                Some(v) => idx < self@.remaining() && self@.yields(self@.lo + idx as nat, v),
                None => idx >= self@.remaining(),
            },
    {
        if idx < self.len() {
            Some(self.get_unchecked(idx))
        } else {
            None
        }
    }
}

} // verus!
