//! Arrays of evenly spaced values, with the length in the type.

use core::ops::{Range, RangeInclusive};
use vstd::prelude::*;
use crate::blend::Blend;
use crate::linspace::{fill_array, Linspace};
use crate::linspaced::LinspacedView;

verus! {

/// An interval that can be turned into an array of `LENGTH` evenly spaced
/// values.
pub trait LinspaceArray<T: Blend, const LENGTH: usize>: Linspace<T> {
    /// The array of the `LENGTH` evenly spaced values of the interval.
    fn linspace_array(self) -> (array: [T; LENGTH])
        ensures
            LinspacedView::fresh(
                self.start_bound(),
                self.end_bound(),
                LENGTH as nat,
                Self::includes_end(),
            ).lists(array@),
    ;
}

impl<T: Blend, const LENGTH: usize> LinspaceArray<T, LENGTH> for Range<T> {
    fn linspace_array(self) -> (array: [T; LENGTH]) {
        fill_array::<T, LENGTH, false>(self.start, self.end)
    }
}

impl<T: Blend, const LENGTH: usize> LinspaceArray<T, LENGTH> for RangeInclusive<T> {
    fn linspace_array(self) -> (array: [T; LENGTH]) {
        fill_array::<T, LENGTH, true>(*self.start(), *self.end())
    }
}

} // verus!
