//! A sequence whose values are handed to a callback.

use vstd::prelude::*;
use vstd::std_specs::convert::FromSpecImpl;
use crate::blend::Blend;
use crate::iter::IntoIter;
use crate::linspaced::{all_return, Linspaced, LinspacedView};

verus! {

/// A sequence that is gone through as a whole: each of its values is handed to
/// a callback, in order.
pub struct AsBulk<T, const INCLUSIVE: bool> {
    linspace: Linspaced<T, INCLUSIVE>,
}

/// As [`AsBulk`], with the end of the interval as the last value.
pub type BulkInclusive<T> = AsBulk<T, true>;

impl<T, const INCLUSIVE: bool> View for AsBulk<T, INCLUSIVE> {
    type V = LinspacedView<T>;

    closed spec fn view(&self) -> LinspacedView<T> {
        self.linspace@
    }
}

impl<T, const INCLUSIVE: bool> AsBulk<T, INCLUSIVE> {
    /// Wraps `linspace`, as it is.
    pub fn new(linspace: Linspaced<T, INCLUSIVE>) -> (r: Self)
        ensures
            r@ == linspace@,
    {
        AsBulk { linspace }
    }
}

impl<T, const INCLUSIVE: bool> From<AsBulk<T, INCLUSIVE>> for Linspaced<T, INCLUSIVE> {
    /// Hands back the sequence that `value` wraps, as it is.
    fn from(value: AsBulk<T, INCLUSIVE>) -> (r: Self)
        ensures
            r@ == value@,
    {
        let AsBulk { linspace } = value;
        linspace
    }
}

impl<T, const INCLUSIVE: bool> FromSpecImpl<AsBulk<T, INCLUSIVE>> for Linspaced<T, INCLUSIVE> {
    open spec fn obeys_from_spec() -> bool {
        true
    }

    closed spec fn from_spec(value: AsBulk<T, INCLUSIVE>) -> Self {
        value.linspace
    }
}

impl<T: Blend, const INCLUSIVE: bool> AsBulk<T, INCLUSIVE> {
    /// The iterator over the sequence.
    pub fn into_iter(self) -> (r: IntoIter<T, INCLUSIVE>)
        ensures
            r@ == (LinspacedView { lo: 0, hi: self@.remaining(), ..self@ }),
    {
        self.linspace.as_iter()
    }

    /// The number of values that the callback will be handed.
    pub fn len(&self) -> (r: usize)
        ensures
            r == self@.remaining(),
            self@.wf(),
    {
        self.linspace.len()
    }

    /// Calls `f` on each value of the sequence, from the front to the back.
    pub fn for_each<F: FnMut(T)>(self, f: F)
        requires
            forall|i: nat, v: T|
                self@.lo <= i < self@.hi && self@.yields(i, v) ==> call_requires(f, (v,)),
        ensures
            exists|vs: Seq<T>| #[trigger] self@.lists(vs) && all_return(f, vs, ()),
    {
        assert(self@ == self.linspace@);
        self.linspace.for_each(f)
    }

    /// Calls `f` on each value of the sequence, from the front to the back,
    /// until one call fails: that error is returned, and `f` is not called
    /// again.
    pub fn try_for_each<E, F: FnMut(T) -> Result<(), E>>(self, f: F) -> (r: Result<(), E>)
        requires
            forall|i: nat, v: T|
                self@.lo <= i < self@.hi && self@.yields(i, v) ==> call_requires(f, (v,)),
        ensures
            match r {
                Ok(_) => exists|vs: Seq<T>| #[trigger]
                    self@.lists(vs) && all_return(f, vs, Ok::<(), E>(())),
                Err(e) => exists|vs: Seq<T>| #[trigger]
                    self@.begins(vs) && vs.len() > 0 && all_return(
                        f,
                        vs.drop_last(),
                        Ok::<(), E>(()),
                    ) && call_ensures(f, (vs.last(),), Err::<(), E>(e)),
            },
    {
        assert(self@ == self.linspace@);
        self.linspace.try_for_each(f)
    }
}

} // verus!
