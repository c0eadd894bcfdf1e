use arraylist::{Array, ArrayError, ArrayIter};

fn numbers() -> Array<i32> {
    Array::from_vec(&vec![1, 2, 3, 4, 5, 6, 7, 8])
}

#[test]
fn new_buffer_is_zero() {
    let a = Array::<i32>::new(4);
    assert_eq!(a.len(), 4);
    assert_eq!(a.to_vec(), vec![0, 0, 0, 0]);
    let empty = Array::<u8>::new(0);
    assert_eq!(empty.len(), 0);
    assert_eq!(empty.to_vec(), Vec::<u8>::new());
}

#[test]
fn buffer_from_vec_holds_its_elements() {
    let v = vec![7u64, 8, 9];
    let a = Array::from_vec(&v);
    assert_eq!(a.len(), 3);
    assert_eq!(a.to_vec(), v);
    assert_eq!(Array::<u64>::from_vec(&Vec::new()).len(), 0);
}

#[test]
fn buffer_takes_a_vec() {
    let a = Array::take_vec(vec![-1i64, 0, 1]);
    assert_eq!(a.to_vec(), vec![-1, 0, 1]);
}

#[test]
fn buffer_from_front_of_slice() {
    let source = [10i32, 20, 30, 40];
    assert_eq!(Array::from_raw_buf(&source, 4).to_vec(), vec![10, 20, 30, 40]);
    assert_eq!(Array::from_raw_buf(&source, 2).to_vec(), vec![10, 20]);
    assert_eq!(Array::from_raw_buf(&source, 0).to_vec(), Vec::<i32>::new());
}

#[test]
fn copy_is_independent() {
    let mut a = numbers();
    let b = a.copy();
    assert_eq!(a.set(0, 100), Ok(()));
    assert_eq!(b.to_vec(), vec![1, 2, 3, 4, 5, 6, 7, 8]);
    assert_eq!(a.to_vec(), vec![100, 2, 3, 4, 5, 6, 7, 8]);
}

#[test]
fn get_reads_inside_and_refuses_outside() {
    let a = numbers();
    assert_eq!(a.get(0), Ok(1));
    assert_eq!(a.get(7), Ok(8));
    assert_eq!(a.get(8), Err(ArrayError::IndexOutOfRange { index: 8, bound: 8 }));
    assert_eq!(
        a.get(usize::MAX),
        Err(ArrayError::IndexOutOfRange { index: usize::MAX, bound: 8 })
    );
    let empty = Array::<i32>::new(0);
    assert_eq!(empty.get(0), Err(ArrayError::IndexOutOfRange { index: 0, bound: 0 }));
}

#[test]
fn set_writes_inside_and_refuses_outside() {
    let mut a = Array::<i32>::new(3);
    assert_eq!(a.set(1, 5), Ok(()));
    assert_eq!(a.set(2, -6), Ok(()));
    assert_eq!(a.to_vec(), vec![0, 5, -6]);
    assert_eq!(a.set(3, 9), Err(ArrayError::IndexOutOfRange { index: 3, bound: 3 }));
    assert_eq!(a.to_vec(), vec![0, 5, -6]);
    assert_eq!(a.len(), 3);
}

#[test]
fn resize_keeps_front_and_zeroes_rest() {
    let mut a = Array::from_vec(&vec![1, 2, 3]);
    a.resize(5);
    assert_eq!(a.to_vec(), vec![1, 2, 3, 0, 0]);
    a.resize(2);
    assert_eq!(a.to_vec(), vec![1, 2]);
    a.resize(4);
    assert_eq!(a.to_vec(), vec![1, 2, 0, 0]);
    a.resize(0);
    assert_eq!(a.len(), 0);
    a.resize(2);
    assert_eq!(a.to_vec(), vec![0, 0]);
}

#[test]
fn resize_to_same_size_changes_nothing() {
    let mut a = numbers();
    a.resize(8);
    assert_eq!(a.to_vec(), vec![1, 2, 3, 4, 5, 6, 7, 8]);
}

#[test]
fn clear_zeroes_every_slot() {
    let mut a = numbers();
    a.clear();
    assert_eq!(a.to_vec(), vec![0; 8]);
}

#[test]
fn shift_by_zero_is_no_op() {
    let mut a = numbers();
    a.shift_from(3, 0);
    assert_eq!(a.to_vec(), vec![1, 2, 3, 4, 5, 6, 7, 8]);
    a.shift_from(100, 0);
    assert_eq!(a.to_vec(), vec![1, 2, 3, 4, 5, 6, 7, 8]);
}

#[test]
fn shift_closes_gap_of_two_at_four() {
    let mut b = numbers();
    b.shift_from(4, -2);
    assert_eq!(b.to_vec(), vec![1, 2, 5, 6, 7, 8, 0, 0]);
}

#[test]
fn shift_closes_gap_of_one() {
    let mut a = numbers();
    a.shift_from(1, -1);
    assert_eq!(a.to_vec(), vec![2, 3, 4, 5, 6, 7, 8, 0]);
    let mut b = numbers();
    b.shift_from(8, -1);
    assert_eq!(b.to_vec(), vec![1, 2, 3, 4, 5, 6, 7, 0]);
    let mut c = numbers();
    c.shift_from(8, -8);
    assert_eq!(c.to_vec(), vec![0; 8]);
}

#[test]
fn shift_opens_gap_and_drops_overflow() {
    let mut a = numbers();
    a.shift_from(2, 3);
    assert_eq!(a.to_vec(), vec![1, 2, 0, 0, 0, 3, 4, 5]);
    let mut b = numbers();
    b.shift_from(0, 1);
    assert_eq!(b.to_vec(), vec![0, 1, 2, 3, 4, 5, 6, 7]);
    let mut c = numbers();
    c.shift_from(7, 1);
    assert_eq!(c.to_vec(), vec![1, 2, 3, 4, 5, 6, 7, 0]);
}

#[test]
fn shift_opens_gap_wider_than_the_rest() {
    let mut a = numbers();
    a.shift_from(5, 3);
    assert_eq!(a.to_vec(), vec![1, 2, 3, 4, 5, 0, 0, 0]);
    let mut b = numbers();
    b.shift_from(5, 100);
    assert_eq!(b.to_vec(), vec![1, 2, 3, 4, 5, 0, 0, 0]);
    let mut c = numbers();
    c.shift_from(0, isize::MAX);
    assert_eq!(c.to_vec(), vec![0; 8]);
}

#[test]
fn shift_opens_gap_at_or_behind_the_end() {
    let mut a = numbers();
    a.shift_from(8, 2);
    assert_eq!(a.to_vec(), vec![1, 2, 3, 4, 5, 6, 7, 8]);
    let mut b = numbers();
    b.shift_from(usize::MAX, isize::MAX);
    assert_eq!(b.to_vec(), vec![1, 2, 3, 4, 5, 6, 7, 8]);
}

#[test]
fn shift_keeps_prefix_and_moves_suffix() {
    for index in 0usize..=8 {
        for k in 1usize..=9 {
            let before = numbers().to_vec();
            let mut a = numbers();
            a.shift_from(index, k as isize);
            let after = a.to_vec();
            assert_eq!(after.len(), 8);
            for i in 0..8 {
                if i < index {
                    assert_eq!(after[i], before[i]);
                } else if i < index + k {
                    assert_eq!(after[i], 0);
                } else {
                    assert_eq!(after[i], before[i - k]);
                }
            }
        }
    }
}

#[test]
fn shift_close_moves_suffix_down() {
    for index in 0usize..=8 {
        for k in 1usize..=index {
            let before = numbers().to_vec();
            let mut a = numbers();
            a.shift_from(index, -(k as isize));
            let after = a.to_vec();
            for i in 0..8 {
                if i < index - k {
                    assert_eq!(after[i], before[i]);
                } else if i + k < 8 {
                    assert_eq!(after[i], before[i + k]);
                } else {
                    assert_eq!(after[i], 0);
                }
            }
        }
    }
}

#[test]
fn shift_from_front() {
    let mut a = Array::from_vec(&vec![1, 2, 3, 4]);
    a.shift(2);
    assert_eq!(a.to_vec(), vec![0, 0, 1, 2]);
    a.shift(0);
    assert_eq!(a.to_vec(), vec![0, 0, 1, 2]);
}

#[test]
fn grow_to_next_power_of_two() {
    let mut a = Array::from_vec(&vec![1, 2, 3]);
    assert_eq!(a.grow_pow2(), Ok(()));
    assert_eq!(a.to_vec(), vec![1, 2, 3, 0]);
    assert_eq!(a.grow_pow2(), Ok(()));
    assert_eq!(a.to_vec(), vec![1, 2, 3, 0, 0, 0, 0, 0]);
    let mut empty = Array::<i32>::new(0);
    assert_eq!(empty.grow_pow2(), Ok(()));
    assert_eq!(empty.to_vec(), vec![0]);
}

#[test]
fn shrink_to_half_but_not_below_one() {
    let mut a = Array::from_vec(&vec![1, 2, 3, 4, 5]);
    a.shrink_pow2();
    assert_eq!(a.to_vec(), vec![1, 2]);
    a.shrink_pow2();
    assert_eq!(a.to_vec(), vec![1]);
    a.shrink_pow2();
    assert_eq!(a.to_vec(), vec![1]);
    let mut empty = Array::<i32>::new(0);
    empty.shrink_pow2();
    assert_eq!(empty.to_vec(), vec![0]);
}

#[test]
fn buffer_renders_as_list() {
    assert_eq!(Array::<i32>::new(0).render(), "[]");
    assert_eq!(Array::from_vec(&vec![5]).render(), "[5]");
    assert_eq!(numbers().render(), "[1, 2, 3, 4, 5, 6, 7, 8]");
    assert_eq!(Array::from_vec(&vec![-1, 0, 12]).render(), "[-1, 0, 12]");
    assert_eq!(Array::<u8>::new(3).render(), "[0, 0, 0]");
}

#[test]
fn buffer_renders_its_front() {
    let a = numbers();
    assert_eq!(a.render_front(0), "[]");
    assert_eq!(a.render_front(1), "[1]");
    assert_eq!(a.render_front(3), "[1, 2, 3]");
    assert_eq!(a.render_front(8), "[1, 2, 3, 4, 5, 6, 7, 8]");
    assert_eq!(a.render_front(9), "[1, 2, 3, 4, 5, 6, 7, 8]");
}

#[test]
fn buffer_walk_visits_every_slot_once() {
    let mut it = ArrayIter::new(Array::from_vec(&vec![4, 5, 6]));
    assert_eq!(it.next(), Some(4));
    assert_eq!(it.next(), Some(5));
    assert_eq!(it.next(), Some(6));
    assert_eq!(it.next(), None);
    assert_eq!(it.next(), None);
    let mut none = Array::<i32>::new(0).into_iter();
    assert_eq!(none.next(), None);
    let mut zeros = Array::<i32>::new(2).into_iter();
    assert_eq!(zeros.next(), Some(0));
    assert_eq!(zeros.next(), Some(0));
    assert_eq!(zeros.next(), None);
}
