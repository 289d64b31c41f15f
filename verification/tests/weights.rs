use linspace::{blend, steps, weights, Blend, Weights};

#[derive(Clone, Copy, Debug, PartialEq)]
struct Real(f64);

impl Blend for Real {
    fn scale(self, num: usize, den: usize) -> Self {
        Real(self.0 * (num as f64 / den as f64))
    }

    fn plus(self, rhs: Self) -> Self {
        Real(self.0 + rhs.0)
    }
}

#[test]
fn steps_between_the_ends() {
    assert_eq!(steps(0, false), 1);
    assert_eq!(steps(0, true), 1);
    assert_eq!(steps(1, false), 1);
    assert_eq!(steps(1, true), 1);
    assert_eq!(steps(2, false), 2);
    assert_eq!(steps(2, true), 1);
    assert_eq!(steps(128, false), 128);
    assert_eq!(steps(128, true), 127);
    assert_eq!(steps(usize::MAX, false), usize::MAX);
    assert_eq!(steps(usize::MAX, true), usize::MAX - 1);
}

#[test]
fn weights_of_each_index() {
    assert_eq!(weights(0, 4, false), Weights { start: 4, end: 0, parts: 4 });
    assert_eq!(weights(1, 4, false), Weights { start: 3, end: 1, parts: 4 });
    assert_eq!(weights(3, 4, false), Weights { start: 1, end: 3, parts: 4 });
    assert_eq!(weights(0, 5, true), Weights { start: 4, end: 0, parts: 4 });
    assert_eq!(weights(4, 5, true), Weights { start: 0, end: 4, parts: 4 });
    assert_eq!(weights(0, 1, true), Weights { start: 1, end: 0, parts: 1 });
    assert_eq!(weights(0, 1, false), Weights { start: 1, end: 0, parts: 1 });
}

#[test]
fn weights_beyond_the_last_index() {
    assert_eq!(weights(4, 4, false), Weights { start: 0, end: 4, parts: 4 });
    assert_eq!(weights(6, 4, false), Weights { start: 0, end: 6, parts: 4 });
    assert_eq!(weights(2, 0, true), Weights { start: 0, end: 2, parts: 1 });
}

#[test]
fn blend_scales_both_ends_and_adds() {
    let v = blend(Real(10.0), Real(20.0), Weights { start: 3, end: 1, parts: 4 });
    assert_eq!(v, Real(12.5));
    let v = blend(Real(10.0), Real(20.0), Weights { start: 4, end: 0, parts: 4 });
    assert_eq!(v, Real(10.0));
    let v = blend(Real(10.0), Real(20.0), Weights { start: 0, end: 4, parts: 4 });
    assert_eq!(v, Real(20.0));
}
