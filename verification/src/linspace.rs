//! Sequences made from intervals, and buffers filled with their values.

use core::mem::MaybeUninit;
use core::ops::{Range, RangeInclusive};
use vstd::prelude::*;
use vstd::std_specs::maybe_uninit::MaybeUninitAdditionalSpecFns;
use crate::blend::Blend;
use crate::iter::IntoIter;
use crate::linspaced::{Linspaced, LinspacedView};

verus! {

/// `std::ops::RangeInclusive::start`: a reference to the lower bound that the
/// range holds, which is the start of its view.
pub assume_specification<Idx>[ RangeInclusive::<Idx>::start ](r: &RangeInclusive<Idx>) -> (ret:
    &Idx)
    ensures
        *ret == r@.start,
;

/// `std::ops::RangeInclusive::end`: a reference to the upper bound that the
/// range holds, which is the end of its view.
pub assume_specification<Idx>[ RangeInclusive::<Idx>::end ](r: &RangeInclusive<Idx>) -> (ret:
    &Idx)
    ensures
        *ret == r@.end,
;

/// Fills `slice` with the sequence of as many values between `start` and
/// `end` as it has slots: the value at index `i` goes to slot `i`.
pub fn fill_slice<T: Blend, const INCLUSIVE: bool>(start: T, end: T, slice: &mut [T])
    ensures
        final(slice)@.len() == old(slice)@.len(),
        LinspacedView::fresh(start, end, old(slice)@.len(), INCLUSIVE).lists(final(slice)@),
{
    let ghost whole = LinspacedView::fresh(start, end, slice@.len(), INCLUSIVE);
    let mut iter = IntoIter::new(Linspaced::<T, INCLUSIVE>::new(start, end, slice.len()));
    let mut i: usize = 0;
    loop
        invariant
            slice@.len() == old(slice)@.len(),
            whole == LinspacedView::fresh(start, end, old(slice)@.len(), INCLUSIVE),
            i <= slice@.len(),
            iter@.wf(),
            iter@ == (LinspacedView { lo: i as nat, ..whole }),
            forall|k: int| 0 <= k < i ==> whole.yields(k as nat, #[trigger] slice@[k]),
        ensures
            slice@.len() == old(slice)@.len(),
            whole.lists(slice@),
        decreases iter@.remaining(),
    {
        match iter.forward() {
            Some(next) => {
                slice[i] = next;
                i += 1;
            },
            None => {
                break ;
            },
        }
    }
}

/// Every slot of `slots` holds a value.
pub open spec fn all_init<T>(slots: Seq<MaybeUninit<T>>) -> bool {
    forall|k: int| 0 <= k < slots.len() ==> (#[trigger] slots[k]).as_option().is_some()
}

/// The values that the slots of `slots` hold.
pub open spec fn contents<T>(slots: Seq<MaybeUninit<T>>) -> Seq<T> {
    Seq::new(slots.len(), |k: int| slots[k].as_option().unwrap())
}

/// Fills `slice`, whose slots may hold nothing yet, with the sequence of as
/// many values between `start` and `end` as it has slots: the value at index
/// `i` goes to slot `i`. No slot is read, and what a slot held is not dropped.
/// Afterwards every slot holds a value.
pub fn fill_uninit_slice<T: Blend, const INCLUSIVE: bool>(
    start: T,
    end: T,
    slice: &mut [MaybeUninit<T>],
)
    ensures
        final(slice)@.len() == old(slice)@.len(),
        all_init(final(slice)@),
        LinspacedView::fresh(start, end, old(slice)@.len(), INCLUSIVE).lists(
            contents(final(slice)@),
        ),
{
    let ghost whole = LinspacedView::fresh(start, end, slice@.len(), INCLUSIVE);
    let mut iter = IntoIter::new(Linspaced::<T, INCLUSIVE>::new(start, end, slice.len()));
    let mut i: usize = 0;
    loop
        invariant
            slice@.len() == old(slice)@.len(),
            whole == LinspacedView::fresh(start, end, old(slice)@.len(), INCLUSIVE),
            i <= slice@.len(),
            iter@.wf(),
            iter@ == (LinspacedView { lo: i as nat, ..whole }),
            forall|k: int|
                0 <= k < i ==> (#[trigger] slice@[k]).as_option().is_some() && whole.yields(
                    k as nat,
                    slice@[k].as_option().unwrap(),
                ),
        ensures
            slice@.len() == old(slice)@.len(),
            all_init(slice@),
            whole.lists(contents(slice@)),
        decreases iter@.remaining(),
    {
        match iter.forward() {
            Some(next) => {
                slice[i] = MaybeUninit::new(next);
                i += 1;
            },
            None => {
                break ;
            },
        }
    }
}

/// Makes the array of the `N` values of the sequence between `start` and
/// `end`: the value at index `i` is in slot `i`.
pub fn fill_array<T: Blend, const N: usize, const INCLUSIVE: bool>(start: T, end: T) -> (array: [
    T;
    N
])
    ensures
        LinspacedView::fresh(start, end, N as nat, INCLUSIVE).lists(array@),
{
    let mut array = [start;N];
    fill_slice::<T, INCLUSIVE>(start, end, &mut array);
    array
}

/// An interval that can be cut into evenly spaced values.
pub trait Linspace<T: Blend>: Sized {
    /// The sequence that the interval is cut into.
    type Output: View<V = LinspacedView<T>>;

    /// The value that the sequences of this interval start with.
    spec fn start_bound(&self) -> T;

    /// The value that the sequences of this interval lead up to.
    spec fn end_bound(&self) -> T;

    /// Whether the sequences of this interval include its end.
    spec fn includes_end() -> bool;

    /// The sequence of `count` evenly spaced values of the interval.
    fn linspace(&self, count: usize) -> (r: Self::Output)
        ensures
            r@ == LinspacedView::fresh(self.start_bound(), self.end_bound(), count as nat, Self::includes_end()),
    ;

    /// The array of `N` evenly spaced values of the interval.
    fn linspace_array<const N: usize>(&self) -> (array: [T; N])
        ensures
            LinspacedView::fresh(self.start_bound(), self.end_bound(), N as nat, Self::includes_end()).lists(
                array@,
            ),
    ;

    /// Fills `slice` with evenly spaced values of the interval, as many as it
    /// has slots.
    fn linspace_slice(&self, slice: &mut [T])
        ensures
            final(slice)@.len() == old(slice)@.len(),
            LinspacedView::fresh(
                self.start_bound(),
                self.end_bound(),
                old(slice)@.len(),
                Self::includes_end(),
            ).lists(final(slice)@),
    ;

    /// Fills `slice`, whose slots may hold nothing yet, with evenly spaced
    /// values of the interval, as many as it has slots. What a slot held is
    /// overwritten and not dropped. Afterwards every slot holds a value.
    fn linspace_uninit_slice(&self, slice: &mut [MaybeUninit<T>])
        ensures
            final(slice)@.len() == old(slice)@.len(),
            all_init(final(slice)@),
            LinspacedView::fresh(
                self.start_bound(),
                self.end_bound(),
                old(slice)@.len(),
                Self::includes_end(),
            ).lists(contents(final(slice)@)),
    ;
}

impl<T: Blend> Linspace<T> for Range<T> {
    type Output = Linspaced<T, false>;

    open spec fn start_bound(&self) -> T {
        self.start
    }

    open spec fn end_bound(&self) -> T {
        self.end
    }

    open spec fn includes_end() -> bool {
        false
    }

    fn linspace(&self, count: usize) -> (r: Self::Output) {
        Linspaced::new(self.start, self.end, count)
    }

    fn linspace_array<const N: usize>(&self) -> (array: [T; N]) {
        fill_array::<T, N, false>(self.start, self.end)
    }

    fn linspace_slice(&self, slice: &mut [T]) {
        fill_slice::<T, false>(self.start, self.end, slice)
    }

    fn linspace_uninit_slice(&self, slice: &mut [MaybeUninit<T>]) {
        fill_uninit_slice::<T, false>(self.start, self.end, slice)
    }
}

impl<T: Blend> Linspace<T> for RangeInclusive<T> {
    type Output = Linspaced<T, true>;

    open spec fn start_bound(&self) -> T {
        self@.start
    }

    open spec fn end_bound(&self) -> T {
        self@.end
    }

    open spec fn includes_end() -> bool {
        true
    }

    fn linspace(&self, count: usize) -> (r: Self::Output) {
        Linspaced::new(*self.start(), *self.end(), count)
    }

    fn linspace_array<const N: usize>(&self) -> (array: [T; N]) {
        fill_array::<T, N, true>(*self.start(), *self.end())
    }

    fn linspace_slice(&self, slice: &mut [T]) {
        fill_slice::<T, true>(*self.start(), *self.end(), slice)
    }

    fn linspace_uninit_slice(&self, slice: &mut [MaybeUninit<T>]) {
        fill_uninit_slice::<T, true>(*self.start(), *self.end(), slice)
    }
}

} // verus!
