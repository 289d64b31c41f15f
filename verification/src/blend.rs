//! Weights as exact fractions, and the elements that are blended by them.

use vstd::prelude::*;

verus! {

/// An element of a linearly spaced sequence: a value that can be scaled by a
/// fraction between zero and one, and added to another.
///
/// The weight is handed over as a numerator and a denominator, so that the
/// element type decides how the fraction is formed and applied.
pub trait Blend: Copy {
    /// Scales `self` by the fraction `num / den`.
    fn scale(self, num: usize, den: usize) -> Self
        requires
            0 < den,
            num <= den,
    ;

    /// Adds `rhs` to `self`.
    fn plus(self, rhs: Self) -> Self;
}

/// The weights of the two ends of an interval in one value of the sequence:
/// `start / parts` for the start and `end / parts` for the end.
#[derive(Clone, Copy, Debug, PartialEq, Eq, Structural)]
pub struct Weights {
    pub start: usize,
    pub end: usize,
    pub parts: usize,
}

impl Weights {
    /// Both weights are fractions between zero and one.
    pub open spec fn proper(self) -> bool {
        &&& 0 < self.parts
        &&& self.start <= self.parts
        &&& self.end <= self.parts
    }
}

/// The number of steps from the start to the end of an interval that is cut
/// into `len` values: one less than `len` where the end is the last value, and
/// never less than one.
pub open spec fn spec_steps(len: nat, inclusive: bool) -> nat {
    let m = len - if inclusive { 1int } else { 0int };
    if m >= 1 {
        m as nat
    } else {
        1
    }
}

/// The weights of the value at index `i` among `len` values: `m - i` parts of
/// the start (none where `i` is beyond `m`) and `i` parts of the end, out of
/// `m = spec_steps(len, inclusive)`.
pub open spec fn spec_weights(i: nat, len: nat, inclusive: bool) -> Weights {
    let m = spec_steps(len, inclusive);
    Weights {
        start: if i <= m { (m - i) as usize } else { 0 },
        end: i as usize,
        parts: m as usize,
    }
}

/// `v` is a value that the element type can give for `start` and `end` blended
/// by the weights `w`: the sum of `start` scaled by its weight and `end`
/// scaled by its weight.
pub open spec fn blends_to<T: Blend>(start: T, end: T, w: Weights, v: T) -> bool {
    exists|a: T, b: T|
        {
            &&& call_ensures(T::scale, (start, w.start, w.parts), a)
            &&& call_ensures(T::scale, (end, w.end, w.parts), b)
            &&& #[trigger] call_ensures(T::plus, (a, b), v)
        }
}

/// The element type gives one result for one scaling and one result for one
/// sum: the same values blended by the same weights give the same value.
pub open spec fn deterministic<T: Blend>() -> bool {
    &&& forall|x: T, num: usize, den: usize, a: T, b: T|
        #![trigger call_ensures(T::scale, (x, num, den), a), call_ensures(T::scale, (x, num, den), b)]
        call_ensures(T::scale, (x, num, den), a) && call_ensures(T::scale, (x, num, den), b) ==> a
            == b
    &&& forall|x: T, y: T, a: T, b: T|
        #![trigger call_ensures(T::plus, (x, y), a), call_ensures(T::plus, (x, y), b)]
        call_ensures(T::plus, (x, y), a) && call_ensures(T::plus, (x, y), b) ==> a == b
}

/// The element type scales and adds exactly at the two ends of the range of
/// weights: a value scaled by one is that value, and what scaling by zero
/// gives changes nothing when it is added.
pub open spec fn exact<T: Blend>() -> bool {
    &&& forall|x: T, den: usize, a: T| #[trigger]
        call_ensures(T::scale, (x, den, den), a) && 0 < den ==> a == x
    &&& forall|x: T, y: T, den: usize, z: T, v: T|
        #![trigger call_ensures(T::scale, (y, 0usize, den), z), call_ensures(T::plus, (x, z), v)]
        0 < den && call_ensures(T::scale, (y, 0usize, den), z) && call_ensures(T::plus, (x, z), v)
            ==> v == x
    &&& forall|x: T, y: T, den: usize, z: T, v: T|
        #![trigger call_ensures(T::scale, (y, 0usize, den), z), call_ensures(T::plus, (z, x), v)]
        0 < den && call_ensures(T::scale, (y, 0usize, den), z) && call_ensures(T::plus, (z, x), v)
            ==> v == x
}

/// Computes the number of steps between the ends for `len` values.
pub fn steps(len: usize, inclusive: bool) -> (m: usize)
    ensures
        m == spec_steps(len as nat, inclusive),
{
    let cut: usize = if inclusive { 2 } else { 1 };
    len.saturating_sub(cut) + 1
}

/// Computes the weights of the value at index `i` among `len` values.
pub fn weights(i: usize, len: usize, inclusive: bool) -> (w: Weights)
    ensures
        w == spec_weights(i as nat, len as nat, inclusive),
        i < len ==> w.proper() && w.start + w.end == w.parts,
{
    let m = steps(len, inclusive);
    Weights { start: m.saturating_sub(i), end: i, parts: m }
}

/// Blends `start` and `end` by the weights `w`.
pub fn blend<T: Blend>(start: T, end: T, w: Weights) -> (v: T)
    requires
        w.proper(),
    ensures
        blends_to(start, end, w, v),
{
    let a = start.scale(w.start, w.parts);
    let b = end.scale(w.end, w.parts);
    a.plus(b)
}

} // verus!
