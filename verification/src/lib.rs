//! Evenly spaced values between the two ends of an interval.
//!
//! A [`Linspaced`] is made from a start, an end and a count. It gives the
//! values one at a time from the front or from the back, by index, all at once
//! into a vector or a buffer, or to a callback. Whether the end itself is among
//! the values is a parameter of the type.
//!
//! The element type says how one of its values is scaled by a fraction and how
//! two are added ([`Blend`]). The library decides which fractions: the value at
//! index `i` has the start weighted by `(m - i) / m` and the end by `i / m`,
//! where `m` is the number of steps between the two ends ([`weights`]).

pub mod blend;
pub mod bulk;
pub mod iter;
pub mod laws;
pub mod linspace;
pub mod linspace_array;
pub mod linspaced;

pub use blend::{
    blend, blends_to, deterministic, exact, spec_steps, spec_weights, steps, weights, Blend,
    Weights,
};
pub use bulk::{AsBulk, BulkInclusive};
pub use iter::IntoIter;
pub use linspace::{all_init, contents, fill_array, fill_slice, fill_uninit_slice, Linspace};
pub use linspace_array::LinspaceArray;
pub use linspaced::{all_return, Linspaced, LinspacedInclusive, LinspacedView, Side};
