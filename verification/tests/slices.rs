//! Slice utility behaviour: strided traversal, re-sorting, range overlap,
//! sorted insertion and the checked vector operations.

use wavexp::utils::{
    every_nth, get_saturating, get_wrapping, push_sorted, reorder, set_sorted, try_insert,
    try_remove, try_swap_remove, EveryNth, EveryNthMut, InsertError, RemoveError, ReorderError,
    RoundTo, SetSortedError, SliceMove, ToEveryNth,
};

#[test]
fn test_every_nth_mut() {
    let data: Vec<u8> = vec![0, 1, 2, 3, 4, 5, 6, 7, 8, 9, 10];
    let transposed: Vec<u8> = every_nth(&data, 3);
    let mut iter = EveryNth::new(data.clone(), 3);
    let mut transposed_mut: Vec<u8> = Vec::new();
    while let Some(x) = iter.next() {
        transposed_mut.push(x);
    }
    assert_eq!(transposed, [0, 3, 6, 9, 1, 4, 7, 10, 2, 5, 8]);
    assert_eq!(transposed_mut, [0, 3, 6, 9, 1, 4, 7, 10, 2, 5, 8]);
    assert_eq!(data.every_nth_items(3), transposed);
    // the writing counterpart walks the same positions
    let mut walker = EveryNthMut::new(11, 3);
    let mut positions: Vec<usize> = Vec::new();
    while let Some(i) = walker.next_index() {
        positions.push(i);
    }
    assert_eq!(positions, [0, 3, 6, 9, 1, 4, 7, 10, 2, 5, 8]);
}

#[test]
fn saturating_and_wrapping_access() {
    let v: Vec<i64> = vec![10, 20, 30];
    assert_eq!(get_saturating(&v, 1), 20);
    assert_eq!(get_saturating(&v, 9), 30);
    assert_eq!(get_wrapping(&v, 4), 20);
}

#[test]
fn slice_reorder() {
    let mut x: Vec<i64> = vec![1, 2, 4, 8, 16, 32, 64];
    let old_x = x.clone();
    assert_eq!(reorder(&mut x, 3), Ok(SliceMove { from: 3, to: 3 }));
    assert_eq!(x, old_x);
    x[1] = 17;
    assert_eq!(reorder(&mut x, 1), Ok(SliceMove { from: 1, to: 4 }));
    // [1, 2, 4, 8, 16, 32, 64] > [1, 4, 8, 16, 17, 32, 64]
    x[5] = 3;
    assert_eq!(reorder(&mut x, 5), Ok(SliceMove { from: 5, to: 1 }));
    // [1, 4, 8, 16, 17, 32, 64] > [1, 3, 4, 8, 16, 17, 64]
    let old_x = x.clone();
    assert_eq!(reorder(&mut x, 69), Err(ReorderError { index: 69, len: 7 }));
    assert_eq!(x, old_x);
    x[2] = 3;
    assert_eq!(reorder(&mut x, 2), Ok(SliceMove { from: 2, to: 2 }));
}

#[test]
fn range_overlap() {
    assert!(!wavexp::utils::range_overlap(50, 55, 56, 61));
    assert!(!wavexp::utils::range_overlap(50, 56, 56, 61));
    assert!(wavexp::utils::range_overlap(50, 57, 56, 61));
    assert!(wavexp::utils::range_overlap(58, 60, 56, 61));
    assert!(wavexp::utils::range_overlap(56, 61, 58, 60));
    assert!(!wavexp::utils::range_overlap(56, 61, 61, 67));
}

#[test]
fn push_sorted_positions() {
    let mut v: Vec<i64> = vec![1, 3, 5];
    assert_eq!(push_sorted(&mut v, 4), 2);
    assert_eq!(v, [1, 3, 4, 5]);
    // equal keys keep their order; the newcomer goes last among them
    let mut v: Vec<i64> = vec![2, 2];
    assert_eq!(push_sorted(&mut v, 2), 2);
    assert_eq!(v, [2, 2, 2]);
    let mut v: Vec<i64> = Vec::new();
    assert_eq!(push_sorted(&mut v, 9), 0);
    assert_eq!(v, [9]);
}

#[test]
fn reorder_error_needs_no_order() {
    // the out-of-bounds error path is callable on unsorted data and changes
    // nothing
    let mut x: Vec<i64> = vec![5, 1, 9];
    assert_eq!(reorder(&mut x, 10), Err(ReorderError { index: 10, len: 3 }));
    assert_eq!(x, [5, 1, 9]);
    assert_eq!(set_sorted(&mut x, 7, 2), Err(SetSortedError { index: 7, len: 3 }));
    assert_eq!(x, [5, 1, 9]);
}

#[test]
fn set_sorted_moves() {
    let mut v: Vec<i64> = vec![1, 2, 4, 8];
    assert_eq!(set_sorted(&mut v, 1, 6), Ok(SliceMove { from: 1, to: 2 }));
    assert_eq!(v, [1, 4, 6, 8]);
    assert_eq!(
        set_sorted(&mut v, 9, 6),
        Err(SetSortedError { index: 9, len: 4 })
    );
}

#[test]
fn checked_vec_ops() {
    let mut v: Vec<i64> = vec![10, 20, 30];
    assert_eq!(try_remove(&mut v, 1), Ok(20));
    assert_eq!(v, [10, 30]);
    assert_eq!(try_remove(&mut v, 5), Err(RemoveError { index: 5, len: 2 }));
    assert_eq!(try_insert(&mut v, 1, 15), Ok(()));
    assert_eq!(v, [10, 15, 30]);
    assert_eq!(
        try_insert(&mut v, 9, 0),
        Err(InsertError::Index { index: 9, len: 3 })
    );
    assert_eq!(try_swap_remove(&mut v, 0), Ok(10));
    assert_eq!(v, [30, 15]);
    assert_eq!(
        try_swap_remove(&mut v, 4),
        Err(RemoveError { index: 4, len: 2 })
    );
}

#[test]
fn rounding_to_steps() {
    assert_eq!(7i64.floor_to(4), 4);
    assert_eq!(8i64.floor_to(4), 8);
    assert_eq!(7i64.ceil_to(4), 8);
    assert_eq!(8i64.ceil_to(4), 8);
    assert_eq!(0i64.ceil_to(4), 0);
}

#[test]
fn slice_move_remaps() {
    let m = SliceMove { from: 1, to: 4 };
    let mut ids: Vec<usize> = vec![0, 1, 2, 4, 5];
    m.apply(&mut ids);
    // the moved element follows to 4; indices up to the landing place shift
    // down, so each keeps pointing at the same element
    assert_eq!(ids, [0, 4, 1, 3, 5]);
    let m = SliceMove { from: 4, to: 1 };
    let mut ids: Vec<usize> = vec![0, 1, 3, 4];
    m.apply(&mut ids);
    // indices from the landing place up to the source shift up
    assert_eq!(ids, [0, 2, 4, 1]);
}
