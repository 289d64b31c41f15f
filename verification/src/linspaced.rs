//! The sequence itself: its defining values and the window of indices that it
//! still has to give.

use vstd::prelude::*;
use crate::blend::{blend, blends_to, spec_weights, weights, Blend, Weights};
use crate::bulk::AsBulk;
use crate::iter::IntoIter;

verus! {

/// What a sequence is, mathematically: the two ends, the number of values it
/// was made for, whether the end is one of them, and the window `lo..hi` of
/// indices that have not been given yet.
pub struct LinspacedView<T> {
    pub start: T,
    pub end: T,
    pub len: nat,
    pub inclusive: bool,
    pub lo: nat,
    pub hi: nat,
}

impl<T> LinspacedView<T> {
    /// The sequence as it is made: nothing given yet.
    pub open spec fn fresh(start: T, end: T, len: nat, inclusive: bool) -> Self {
        LinspacedView { start, end, len, inclusive, lo: 0, hi: len }
    }

    /// The window lies within the indices of the sequence, and the length is
    /// one that a machine can hold.
    pub open spec fn wf(self) -> bool {
        self.lo <= self.hi <= self.len <= usize::MAX
    }

    /// Nothing is left to give.
    pub open spec fn is_empty(self) -> bool {
        self.lo >= self.hi
    }

    /// The number of values left to give.
    pub open spec fn remaining(self) -> nat {
        if self.lo < self.hi {
            (self.hi - self.lo) as nat
        } else {
            0
        }
    }

    /// The weights of the two ends in the value at index `i`.
    pub open spec fn weights(self, i: nat) -> Weights {
        spec_weights(i, self.len, self.inclusive)
    }

    /// The sequence after one value was taken from the front: unchanged where
    /// nothing is left.
    pub open spec fn pull_front(self) -> Self {
        if self.lo < self.hi {
            LinspacedView { lo: self.lo + 1, ..self }
        } else {
            self
        }
    }

    /// The sequence after one value was taken from the back: unchanged where
    /// nothing is left.
    pub open spec fn pull_back(self) -> Self {
        if self.lo < self.hi {
            LinspacedView { hi: (self.hi - 1) as nat, ..self }
        } else {
            self
        }
    }

    /// The sequence after one value was taken from the given side.
    pub open spec fn pull(self, side: Side) -> Self {
        match side {
            Side::Front => self.pull_front(),
            Side::Back => self.pull_back(),
        }
    }

    /// The sequence after one value was taken from each of the given sides in
    /// turn.
    pub open spec fn after(self, pulls: Seq<Side>) -> Self
        decreases pulls.len(),
    {
        if pulls.len() == 0 {
            self
        } else {
            self.after(pulls.drop_last()).pull(pulls.last())
        }
    }
}

impl<T: Blend> LinspacedView<T> {
    /// `v` is a value of the sequence at index `i`: the two ends blended by
    /// the weights of that index.
    pub open spec fn yields(self, i: nat, v: T) -> bool {
        blends_to(self.start, self.end, self.weights(i), v)
    }

    /// `vs` holds the first of the values that are left, from the front of
    /// the window on.
    pub open spec fn begins(self, vs: Seq<T>) -> bool {
        &&& vs.len() <= self.remaining()
        &&& forall|k: int| 0 <= k < vs.len() ==> self.yields((self.lo + k) as nat, #[trigger] vs[k])
    }

    /// `vs` holds the last of the values that are left, from the back of the
    /// window on.
    pub open spec fn ends(self, vs: Seq<T>) -> bool {
        &&& vs.len() <= self.remaining()
        &&& forall|k: int|
            0 <= k < vs.len() ==> self.yields((self.hi - 1 - k) as nat, #[trigger] vs[k])
    }

    /// `vs` holds the values that are left, from the front to the back.
    pub open spec fn lists(self, vs: Seq<T>) -> bool {
        self.begins(vs) && vs.len() == self.remaining()
    }

    /// `vs` holds the values that are left, from the back to the front.
    pub open spec fn lists_back(self, vs: Seq<T>) -> bool {
        self.ends(vs) && vs.len() == self.remaining()
    }

    /// `vs` holds what the sequence gives when it is pulled from the front
    /// until nothing is left.
    pub open spec fn forward_gives(self, vs: Seq<T>) -> bool
        decreases vs.len(),
    {
        if vs.len() == 0 {
            self.is_empty()
        } else {
            &&& !self.is_empty()
            &&& self.yields(self.lo, vs.first())
            &&& self.pull_front().forward_gives(vs.drop_first())
        }
    }

    /// `vs` holds what the sequence gives when it is pulled from the back
    /// until nothing is left.
    pub open spec fn backward_gives(self, vs: Seq<T>) -> bool
        decreases vs.len(),
    {
        if vs.len() == 0 {
            self.is_empty()
        } else {
            &&& !self.is_empty()
            &&& self.yields((self.hi - 1) as nat, vs.first())
            &&& self.pull_back().backward_gives(vs.drop_first())
        }
    }
}

/// Each call of `f` on a value of `vs` can have returned `r`.
pub open spec fn all_return<T, R, F: FnMut(T) -> R>(f: F, vs: Seq<T>, r: R) -> bool {
    forall|k: int| 0 <= k < vs.len() ==> call_ensures(f, (#[trigger] vs[k],), r)
}

/// The side of a sequence from which a value is taken.
pub enum Side {
    Front,
    Back,
}

/// A sequence of evenly spaced values between `start` and `end`. With
/// `INCLUSIVE`, and two values or more, the last value is `end` itself;
/// without, `end` is never reached.
pub struct Linspaced<T, const INCLUSIVE: bool> {
    start: T,
    end: T,
    len: usize,
    lo: usize,
    hi: usize,
}

/// A sequence whose last value is the end of the interval.
pub type LinspacedInclusive<T> = Linspaced<T, true>;

impl<T, const INCLUSIVE: bool> Linspaced<T, INCLUSIVE> {
    #[verifier::type_invariant]
    closed spec fn inv(&self) -> bool {
        self.lo <= self.hi <= self.len
    }
}

impl<T, const INCLUSIVE: bool> View for Linspaced<T, INCLUSIVE> {
    type V = LinspacedView<T>;

    closed spec fn view(&self) -> LinspacedView<T> {
        LinspacedView {
            start: self.start,
            end: self.end,
            len: self.len as nat,
            inclusive: INCLUSIVE,
            lo: self.lo as nat,
            hi: self.hi as nat,
        }
    }
}

impl<T: Copy, const INCLUSIVE: bool> Clone for Linspaced<T, INCLUSIVE> {
    fn clone(&self) -> (r: Self)
        ensures
            r@ == self@,
    {
        proof {
            use_type_invariant(self);
        }
        Linspaced { start: self.start, end: self.end, len: self.len, lo: self.lo, hi: self.hi }
    }
}

impl<T, const INCLUSIVE: bool> Linspaced<T, INCLUSIVE> {
    /// Makes the sequence of `len` values between `start` and `end`.
    pub fn new(start: T, end: T, len: usize) -> (r: Self) where T: Copy
        ensures
            r@ == LinspacedView::fresh(start, end, len as nat, INCLUSIVE),
    {
        Linspaced { start, end, len, lo: 0, hi: len }
    }

    /// The sequence as one that hands its values to a callback.
    pub fn as_bulk(self) -> (r: AsBulk<T, INCLUSIVE>)
        ensures
            r@ == self@,
    {
        AsBulk::new(self)
    }

    /// Whether nothing is left to give.
    pub fn is_empty(&self) -> (r: bool)
        ensures
            r == self@.is_empty(),
            self@.wf(),
    {
        proof {
            use_type_invariant(self);
        }
        self.lo >= self.hi
    }

    /// The number of values left to give.
    pub fn len(&self) -> (r: usize)
        ensures
            r == self@.remaining(),
            self@.wf(),
    {
        proof {
            use_type_invariant(self);
        }
        self.hi.saturating_sub(self.lo)
    }

    /// The number of values left to give, as a lower and an upper bound:
    /// both are exact.
    pub fn size_hint(&self) -> (r: (usize, Option<usize>))
        ensures
            r.0 == self@.remaining(),
            r.1 == Some(r.0),
    {
        proof {
            use_type_invariant(self);
        }
        (self.len(), self.hi.checked_sub(self.lo))
    }
}

impl<T: Blend, const INCLUSIVE: bool> Linspaced<T, INCLUSIVE> {
    fn scale_vals(i: usize, len: usize, start: T, end: T) -> (v: T)
        requires
            i < len,
        ensures
            blends_to(start, end, spec_weights(i as nat, len as nat, INCLUSIVE), v),
    {
        blend(start, end, weights(i, len, INCLUSIVE))
    }

    /// The sequence as an iterator: over the indices from zero on, as many as
    /// the sequence has left.
    pub fn as_iter(self) -> (r: IntoIter<T, INCLUSIVE>)
        ensures
            r@ == (LinspacedView { lo: 0, hi: self@.remaining(), ..self@ }),
    {
        IntoIter::new(self)
    }

    /// The iterator over the sequence.
    pub fn into_iter(self) -> (r: IntoIter<T, INCLUSIVE>)
        ensures
            r@ == (LinspacedView { lo: 0, hi: self@.remaining(), ..self@ }),
    {
        IntoIter::new(self)
    }

    /// The value at index `i`, whether or not it was given already.
    pub fn scale(&self, i: usize) -> (v: T)
        requires
            i < self@.len,
        ensures
            self@.yields(i as nat, v),
    {
        Self::scale_vals(i, self.len, self.start, self.end)
    }

    /// The function from an index to the value at that index.
    pub fn f(&self) -> (r: impl Fn(usize) -> T)
        ensures
            forall|i: usize| i < self@.len ==> call_requires(r, (i,)),
            forall|i: usize, v: T| call_ensures(r, (i,), v) ==> self@.yields(i as nat, v),
    {
        let start = self.start;
        let end = self.end;
        let len = self.len;
        move |i: usize| -> (v: T)
            requires
                i < len,
            ensures
                blends_to(start, end, spec_weights(i as nat, len as nat, INCLUSIVE), v),
            { Self::scale_vals(i, len, start, end) }
    }

    /// Takes the next value from the front of a sequence that is not empty.
    pub fn forward_unchecked(&mut self) -> (v: T)
        requires
            !old(self)@.is_empty(),
        ensures
            old(self)@.yields(old(self)@.lo, v),
            final(self)@ == old(self)@.pull_front(),
    {
        proof {
            use_type_invariant(&*self);
        }
        let x = self.scale(self.lo);
        self.lo += 1;
        x
    }

    /// Takes the next value from the front, if any is left. An empty sequence
    /// stays as it is.
    pub fn forward(&mut self) -> (r: Option<T>)
        ensures
            final(self)@ == old(self)@.pull_front(),
            match r {
                Some(v) => !old(self)@.is_empty() && old(self)@.yields(old(self)@.lo, v),
                None => old(self)@.is_empty(),
            },
    {
        if !self.is_empty() {
            return Some(self.forward_unchecked());
        }
        None
    }

    /// Takes the next value from the back of a sequence that is not empty.
    pub fn backward_unchecked(&mut self) -> (v: T)
        requires
            !old(self)@.is_empty(),
        ensures
            old(self)@.yields((old(self)@.hi - 1) as nat, v),
            final(self)@ == old(self)@.pull_back(),
    {
        proof {
            use_type_invariant(&*self);
        }
        self.hi -= 1;
        self.scale(self.hi)
    }

    /// Takes the next value from the back, if any is left. An empty sequence
    /// stays as it is.
    pub fn backward(&mut self) -> (r: Option<T>)
        ensures
            final(self)@ == old(self)@.pull_back(),
            match r {
                Some(v) => !old(self)@.is_empty() && old(self)@.yields(
                    (old(self)@.hi - 1) as nat,
                    v,
                ),
                None => old(self)@.is_empty(),
            },
    {
        if !self.is_empty() {
            return Some(self.backward_unchecked());
        }
        None
    }

    /// Takes the next value from the front, if any is left.
    pub fn next(&mut self) -> (r: Option<T>)
        ensures
            final(self)@ == old(self)@.pull_front(),
            match r {
                Some(v) => !old(self)@.is_empty() && old(self)@.yields(old(self)@.lo, v),
                None => old(self)@.is_empty(),
            },
    {
        self.forward()
    }

    /// Takes the next value from the back, if any is left.
    pub fn next_back(&mut self) -> (r: Option<T>)
        ensures
            final(self)@ == old(self)@.pull_back(),
            match r {
                Some(v) => !old(self)@.is_empty() && old(self)@.yields(
                    (old(self)@.hi - 1) as nat,
                    v,
                ),
                None => old(self)@.is_empty(),
            },
    {
        self.backward()
    }

    /// The value at the offset `idx` from the front of the window, for an
    /// offset within it. The window stays as it is.
    pub fn get_unchecked(&self, idx: usize) -> (v: T)
        requires
            idx < self@.remaining(),
        ensures
            self@.yields(self@.lo + idx as nat, v),
    {
        proof {
            use_type_invariant(self);
        }
        self.f()(self.lo + idx)
    }

    /// The value at the offset `idx` from the front of the window, or nothing
    /// where the offset lies beyond it. The window stays as it is.
    pub fn get(&self, idx: usize) -> (r: Option<T>)
        ensures
            match r {
                Some(v) => idx < self@.remaining() && self@.yields(self@.lo + idx as nat, v),
                None => idx >= self@.remaining(),
            },
    {
        if idx < self.len() {
            Some(self.get_unchecked(idx))
        } else {
            None
        }
    }

    /// The values that are left, from the front to the back.
    pub fn collect(self) -> (out: Vec<T>)
        ensures
            self@.lists(out@),
    {
        let mut this = self;
        let mut out: Vec<T> = Vec::new();
        proof {
            use_type_invariant(&this);
        }
        loop
            invariant
                this@.wf(),
                this@ == (LinspacedView { lo: self@.lo + out@.len(), ..self@ }),
                out@.len() <= self@.remaining(),
                forall|k: int|
                    0 <= k < out@.len() ==> self@.yields((self@.lo + k) as nat, #[trigger] out@[k]),
            ensures
                self@.lists(out@),
            decreases this@.remaining(),
        {
            match this.forward() {
                Some(v) => {
                    out.push(v);
                },
                None => {
                    break ;
                },
            }
        }
        out
    }

    /// The value at the back of the window, reached from the front, if any
    /// value is left.
    pub fn last(self) -> (r: Option<T>)
        ensures
            match r {
                Some(v) => !self@.is_empty() && self@.yields((self@.hi - 1) as nat, v),
                None => self@.is_empty(),
            },
    {
        let mut this = self;
        let mut r: Option<T> = None;
        proof {
            use_type_invariant(&this);
        }
        loop
            invariant
                this@.wf(),
                self@.lo <= this@.lo,
                this@ == (LinspacedView { lo: this@.lo, ..self@ }),
                match r {
                    Some(v) => self@.lo < this@.lo && self@.yields((this@.lo - 1) as nat, v),
                    None => this@.lo == self@.lo,
                },
            ensures
                match r {
                    Some(v) => !self@.is_empty() && self@.yields((self@.hi - 1) as nat, v),
                    None => self@.is_empty(),
                },
            decreases this@.remaining(),
        {
            match this.forward() {
                Some(v) => {
                    r = Some(v);
                },
                None => {
                    break ;
                },
            }
        }
        r
    }

    /// Calls `f` on each value that is left, from the front to the back.
    pub fn for_each<F: FnMut(T)>(self, f: F)
        requires
            forall|i: nat, v: T|
                self@.lo <= i < self@.hi && self@.yields(i, v) ==> call_requires(f, (v,)),
        ensures
            exists|vs: Seq<T>| #[trigger] self@.lists(vs) && all_return(f, vs, ()),
    {
        let mut this = self;
        let mut call = f;
        let ghost mut seen: Seq<T> = Seq::empty();
        proof {
            use_type_invariant(&this);
        }
        loop
            invariant
                call == f,
                this@.wf(),
                this@ == (LinspacedView { lo: self@.lo + seen.len(), ..self@ }),
                self@.begins(seen),
                all_return(f, seen, ()),
                forall|i: nat, v: T|
                    self@.lo <= i < self@.hi && self@.yields(i, v) ==> call_requires(f, (v,)),
            ensures
                self@.lists(seen),
                all_return(f, seen, ()),
            decreases this@.remaining(),
        {
            let ghost i = this@.lo;
            match this.forward() {
                Some(next) => {
                    assert(self@.yields(i, next));
                    call(next);
                    proof {
                        seen = seen.push(next);
                    }
                },
                None => {
                    break ;
                },
            }
        }
    }

    /// Calls `f` on each value that is left, from the front to the back,
    /// until one call fails: that error is returned, and `f` is not called
    /// again.
    pub fn try_for_each<E, F: FnMut(T) -> Result<(), E>>(self, f: F) -> (r: Result<(), E>)
        requires
            forall|i: nat, v: T|
                self@.lo <= i < self@.hi && self@.yields(i, v) ==> call_requires(f, (v,)),
        ensures
            match r {
                Ok(_) => exists|vs: Seq<T>| #[trigger]
                    self@.lists(vs) && all_return(f, vs, Ok::<(), E>(())),
                Err(e) => exists|vs: Seq<T>| #[trigger]
                    self@.begins(vs) && vs.len() > 0 && all_return(
                        f,
                        vs.drop_last(),
                        Ok::<(), E>(()),
                    ) && call_ensures(f, (vs.last(),), Err::<(), E>(e)),
            },
    {
        let mut this = self;
        let mut call = f;
        let ghost mut seen: Seq<T> = Seq::empty();
        proof {
            use_type_invariant(&this);
        }
        loop
            invariant
                call == f,
                this@.wf(),
                this@ == (LinspacedView { lo: self@.lo + seen.len(), ..self@ }),
                self@.begins(seen),
                all_return(f, seen, Ok::<(), E>(())),
                forall|i: nat, v: T|
                    self@.lo <= i < self@.hi && self@.yields(i, v) ==> call_requires(f, (v,)),
            ensures
                self@.lists(seen),
                all_return(f, seen, Ok::<(), E>(())),
            decreases this@.remaining(),
        {
            let ghost i = this@.lo;
            match this.forward() {
                Some(next) => {
                    assert(self@.yields(i, next));
                    match call(next) {
                        Ok(unit) => {
                            proof {
                                assert(unit == ());
                                seen = seen.push(next);
                            }
                        },
                        Err(e) => {
                            proof {
                                let vs = seen.push(next);
                                assert(vs.drop_last() == seen);
                                assert(self@.begins(vs));
                            }
                            return Err(e);
                        },
                    }
                },
                None => {
                    break ;
                },
            }
        }
        Ok(())
    }

    /// Calls `f` on each value that is left, from the back to the front.
    pub fn rev_for_each<F: FnMut(T)>(self, f: F)
        requires
            forall|i: nat, v: T|
                self@.lo <= i < self@.hi && self@.yields(i, v) ==> call_requires(f, (v,)),
        ensures
            exists|vs: Seq<T>| #[trigger] self@.lists_back(vs) && all_return(f, vs, ()),
    {
        let mut this = self;
        let mut call = f;
        let ghost mut seen: Seq<T> = Seq::empty();
        proof {
            use_type_invariant(&this);
        }
        loop
            invariant
                call == f,
                this@.wf(),
                seen.len() <= self@.remaining(),
                this@ == (LinspacedView { hi: (self@.hi - seen.len()) as nat, ..self@ }),
                self@.ends(seen),
                all_return(f, seen, ()),
                forall|i: nat, v: T|
                    self@.lo <= i < self@.hi && self@.yields(i, v) ==> call_requires(f, (v,)),
            ensures
                self@.lists_back(seen),
                all_return(f, seen, ()),
            decreases this@.remaining(),
        {
            let ghost i = (this@.hi - 1) as nat;
            match this.backward() {
                Some(next) => {
                    assert(self@.yields(i, next));
                    call(next);
                    proof {
                        seen = seen.push(next);
                    }
                },
                None => {
                    break ;
                },
            }
        }
    }

    /// Calls `f` on each value that is left, from the back to the front,
    /// until one call fails: that error is returned, and `f` is not called
    /// again.
    pub fn try_rev_for_each<E, F: FnMut(T) -> Result<(), E>>(self, f: F) -> (r: Result<(), E>)
        requires
            forall|i: nat, v: T|
                self@.lo <= i < self@.hi && self@.yields(i, v) ==> call_requires(f, (v,)),
        ensures
            match r {
                Ok(_) => exists|vs: Seq<T>| #[trigger]
                    self@.lists_back(vs) && all_return(f, vs, Ok::<(), E>(())),
                Err(e) => exists|vs: Seq<T>| #[trigger]
                    self@.ends(vs) && vs.len() > 0 && all_return(
                        f,
                        vs.drop_last(),
                        Ok::<(), E>(()),
                    ) && call_ensures(f, (vs.last(),), Err::<(), E>(e)),
            },
    {
        let mut this = self;
        let mut call = f;
        let ghost mut seen: Seq<T> = Seq::empty();
        proof {
            use_type_invariant(&this);
        }
        loop
            invariant
                call == f,
                this@.wf(),
                seen.len() <= self@.remaining(),
                this@ == (LinspacedView { hi: (self@.hi - seen.len()) as nat, ..self@ }),
                self@.ends(seen),
                all_return(f, seen, Ok::<(), E>(())),
                forall|i: nat, v: T|
                    self@.lo <= i < self@.hi && self@.yields(i, v) ==> call_requires(f, (v,)),
            ensures
                self@.lists_back(seen),
                all_return(f, seen, Ok::<(), E>(())),
            decreases this@.remaining(),
        {
            let ghost i = (this@.hi - 1) as nat;
            match this.backward() {
                Some(next) => {
                    assert(self@.yields(i, next));
                    match call(next) {
                        Ok(unit) => {
                            proof {
                                assert(unit == ());
                                seen = seen.push(next);
                            }
                        },
                        Err(e) => {
                            proof {
                                let vs = seen.push(next);
                                assert(vs.drop_last() == seen);
                                assert(self@.ends(vs));
                            }
                            return Err(e);
                        },
                    }
                },
                None => {
                    break ;
                },
            }
        }
        Ok(())
    }
}

} // verus!
