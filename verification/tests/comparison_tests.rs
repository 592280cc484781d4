//! Tests that every key comparator agrees with byte-for-byte equality.

use cyclic_changelog::changelog::{
    branchless_compare, pointer_equality_compare, unrolled_compare, ManualCompare,
};
use cyclic_changelog::comparisons::{manual_compare_32, unrolled_compare_32};

fn sample_arrays() -> ([u8; 32], [u8; 32], [u8; 32], [u8; 32]) {
    let base: [u8; 32] = [
        1, 2, 3, 4, 5, 6, 7, 8, 9, 10, 11, 12, 13, 14, 15, 16, 17, 18, 19, 20, 21, 22, 23, 24, 25,
        26, 27, 28, 29, 30, 31, 32,
    ];
    let mut diff_end = base;
    diff_end[31] = 33;
    let mut diff_start = base;
    diff_start[0] = 2;
    let equal = base;
    (base, equal, diff_end, diff_start)
}

#[test]
fn test_unrolled_compare() {
    let (base, equal, diff_end, diff_start) = sample_arrays();
    assert!(unrolled_compare(&base, &base));
    assert!(unrolled_compare(&base, &equal));
    assert!(!unrolled_compare(&base, &diff_end));
    assert!(!unrolled_compare(&base, &diff_start));
}

#[test]
fn test_branchless_compare() {
    let (base, equal, diff_end, diff_start) = sample_arrays();
    assert!(branchless_compare(&base, &base));
    assert!(branchless_compare(&base, &equal));
    assert!(!branchless_compare(&base, &diff_end));
    assert!(!branchless_compare(&base, &diff_start));
}

#[test]
fn test_pointer_equality_compare() {
    let (base, equal, diff_end, diff_start) = sample_arrays();
    // Aliased arguments are the identity fast path of the strategy's name.
    assert!(pointer_equality_compare(&base, &base));
    assert!(pointer_equality_compare(&base, &equal));
    assert!(!pointer_equality_compare(&base, &diff_end));
    assert!(!pointer_equality_compare(&base, &diff_start));
}

#[test]
fn test_manual_compare_trait() {
    let (base, equal, diff_end, diff_start) = sample_arrays();
    assert!(base.manual_compare(&base));
    assert!(base.manual_compare(&equal));
    assert!(!base.manual_compare(&diff_end));
    assert!(!base.manual_compare(&diff_start));
}

#[test]
fn test_standalone_comparisons() {
    let (base, equal, diff_end, diff_start) = sample_arrays();
    assert!(manual_compare_32(&base, &equal));
    assert!(!manual_compare_32(&base, &diff_end));
    assert!(!manual_compare_32(&base, &diff_start));
    assert!(unrolled_compare_32(&base, &equal));
    assert!(!unrolled_compare_32(&base, &diff_end));
    assert!(!unrolled_compare_32(&base, &diff_start));
}

#[test]
fn test_comparators_agree_everywhere() {
    // All strategies are one contract: agreement with `==` on the arrays,
    // including a difference in every byte and in exactly one byte.
    let all_ones = [1u8; 32];
    let all_twos = [2u8; 32];
    let mut one_off = [1u8; 32];
    one_off[17] = 9;
    let pairs = [
        (all_ones, all_ones),
        (all_ones, all_twos),
        (all_ones, one_off),
    ];
    for (a, b) in pairs.iter() {
        let expected = a == b;
        assert_eq!(unrolled_compare(a, b), expected);
        assert_eq!(branchless_compare(a, b), expected);
        assert_eq!(pointer_equality_compare(a, b), expected);
        assert_eq!(manual_compare_32(a, b), expected);
        assert_eq!(unrolled_compare_32(a, b), expected);
        assert_eq!(a.manual_compare(b), expected);
    }
}
