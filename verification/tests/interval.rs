use linspace::{fill_array, fill_slice, fill_uninit_slice, Blend, Linspace, LinspaceArray};
use std::mem::MaybeUninit;

#[derive(Clone, Copy, Debug, PartialEq)]
struct Real(f64);

impl Blend for Real {
    fn scale(self, num: usize, den: usize) -> Self {
        Real(self.0 * (num as f64 / den as f64))
    }

    fn plus(self, rhs: Self) -> Self {
        Real(self.0 + rhs.0)
    }
}

#[derive(Clone, Copy, Debug, PartialEq)]
struct Single(f32);

impl Blend for Single {
    fn scale(self, num: usize, den: usize) -> Self {
        Single((self.0 as f64 * (num as f64 / den as f64)) as f32)
    }

    fn plus(self, rhs: Self) -> Self {
        Single(self.0 + rhs.0)
    }
}

#[derive(Clone, Copy, Debug, PartialEq)]
struct Int(u32);

impl Blend for Int {
    fn scale(self, num: usize, den: usize) -> Self {
        Int((self.0 as f64 * (num as f64 / den as f64)) as u32)
    }

    fn plus(self, rhs: Self) -> Self {
        Int(self.0 + rhs.0)
    }
}

#[test]
fn linspace() {
    let vec: Vec<u32> = (Int(0)..Int(100)).linspace(4).collect().iter().map(|x| x.0).collect();
    println!("{:?}", vec);

    let array: [u32; 4] = Linspace::linspace_array::<4>(&(Int(0)..Int(100))).map(|x| x.0);
    println!("{:?}", array);

    assert_eq!(vec, array);
    assert_eq!(vec, [0, 25, 50, 75]);
    assert_eq!(array, [0, 25, 50, 75]);
}

#[test]
fn linspace_inclusive() {
    let vec_inclusive: Vec<u32> =
        (Int(0)..=Int(100)).linspace(5).collect().iter().map(|x| x.0).collect();
    println!("{:?}", vec_inclusive);

    let array_inclusive: [u32; 5] =
        Linspace::linspace_array::<5>(&(Int(0)..=Int(100))).map(|x| x.0);
    println!("{:?}", array_inclusive);

    assert_eq!(vec_inclusive, array_inclusive);
    assert_eq!(vec_inclusive, [0, 25, 50, 75, 100]);
    assert_eq!(array_inclusive, [0, 25, 50, 75, 100]);
}

#[test]
fn logspace() {
    let vec: Vec<f32> = (Single(0.0)..Single(1.0))
        .linspace(10)
        .collect()
        .iter()
        .map(|x| 10.0f32.powf(x.0))
        .collect();
    println!("{:?}", vec);
}

#[test]
fn slice_is_filled_in_place() {
    let mut x = [Int(0), Int(0), Int(0), Int(0), Int(0)];
    (Int(0)..=Int(100)).linspace_slice(&mut x);
    assert_eq!(x, [Int(0), Int(25), Int(50), Int(75), Int(100)]);

    let mut x = [Int(9); 4];
    (Int(0)..Int(100)).linspace_slice(&mut x);
    assert_eq!(x, [Int(0), Int(25), Int(50), Int(75)]);

    let mut x = vec![Int(9); 2];
    fill_slice::<Int, true>(Int(100), Int(0), &mut x);
    assert_eq!(x, [Int(100), Int(0)]);
}

#[test]
fn prior_contents_do_not_matter() {
    let mut a = [Real(f64::NAN); 7];
    let mut b = [Real(1.0e300); 7];
    (Real(-1.0)..=Real(1.0)).linspace_slice(&mut a);
    (Real(-1.0)..=Real(1.0)).linspace_slice(&mut b);
    assert_eq!(a, b);
    assert_eq!(a[0], Real(-1.0));
    assert_eq!(a[3], Real(0.0));
    assert_eq!(a[6], Real(1.0));
}

#[test]
fn empty_buffer_is_left_alone() {
    let mut x: [Int; 0] = [];
    (Int(0)..Int(100)).linspace_slice(&mut x);
    (Int(0)..=Int(100)).linspace_slice(&mut x);
    fill_slice::<Int, false>(Int(0), Int(100), &mut x);
    assert_eq!(x, []);
    assert_eq!(fill_array::<Int, 0, true>(Int(0), Int(100)), []);
    assert_eq!((Int(0)..Int(100)).linspace(0).len(), 0);
    assert!((Int(0)..=Int(100)).linspace(0).is_empty());
}

#[test]
fn single_slot_holds_the_start() {
    let mut x = [Int(9)];
    (Int(3)..Int(100)).linspace_slice(&mut x);
    assert_eq!(x, [Int(3)]);
    let mut x = [Int(9)];
    (Int(3)..=Int(100)).linspace_slice(&mut x);
    assert_eq!(x, [Int(3)]);
    assert_eq!(fill_array::<Int, 1, true>(Int(3), Int(100)), [Int(3)]);
    assert_eq!(fill_array::<Int, 1, false>(Int(3), Int(100)), [Int(3)]);
}

#[test]
fn array_by_length_in_the_type() {
    let a: [Int; 4] = LinspaceArray::linspace_array(Int(0)..Int(100));
    assert_eq!(a, [Int(0), Int(25), Int(50), Int(75)]);
    let a: [Int; 5] = LinspaceArray::linspace_array(Int(0)..=Int(100));
    assert_eq!(a, [Int(0), Int(25), Int(50), Int(75), Int(100)]);
    let a: [Int; 1] = LinspaceArray::linspace_array(Int(40)..=Int(100));
    assert_eq!(a, [Int(40)]);
    let a: [Int; 0] = LinspaceArray::linspace_array(Int(40)..Int(100));
    assert_eq!(a, []);
}

#[test]
fn inclusive_interval_keeps_its_bounds_apart() {
    let seq = (Int(10)..=Int(90)).linspace(3);
    assert_eq!(seq.collect(), [Int(10), Int(50), Int(90)]);
    let seq = (Int(10)..Int(90)).linspace(2);
    assert_eq!(seq.collect(), [Int(10), Int(50)]);
}

#[test]
fn fill_and_pulls_agree() {
    for len in 0..25 {
        let mut filled = vec![Real(0.0); len];
        (Real(273.15)..=Real(323.15)).linspace_slice(&mut filled);

        let mut seq = (Real(273.15)..=Real(323.15)).linspace(len);
        let mut forward = Vec::new();
        while let Some(v) = seq.forward() {
            forward.push(v);
        }
        assert_eq!(forward, filled);

        let mut seq = (Real(273.15)..=Real(323.15)).linspace(len);
        let mut backward = Vec::new();
        while let Some(v) = seq.backward() {
            backward.push(v);
        }
        backward.reverse();
        assert_eq!(backward, filled);
    }
}

#[test]
fn uninitialized_slots_are_filled_without_being_read() {
    let mut x = [const { MaybeUninit::uninit() }; 5];
    (Int(0)..=Int(100)).linspace_uninit_slice(&mut x);
    assert_eq!(x.len(), 5);

    let mut x = vec![MaybeUninit::new(Int(9)); 4];
    (Int(0)..Int(100)).linspace_uninit_slice(&mut x);
    assert_eq!(x.len(), 4);

    let mut x = [MaybeUninit::uninit(); 3];
    fill_uninit_slice::<Real, true>(Real(1.0), Real(2.0), &mut x);

    let mut x: [MaybeUninit<Int>; 0] = [];
    fill_uninit_slice::<Int, false>(Int(0), Int(100), &mut x);
}
