//! Columns, words and tables.

use xlog_cuda_tests::categories::c02_launch_config::{BLOCK_SIZES, PRIME_SIZES, WARP_SIZES};
use xlog_cuda_tests::columns;
use xlog_cuda_tests::scalar::{rank, Scalar};
use xlog_cuda_tests::script::{column_names, Layout};
use xlog_cuda_tests::tables::{lookup, Table};

#[test]
fn sums_and_running_sums() {
    assert_eq!(columns::sum(&vec![]), Some(0));
    assert_eq!(columns::sum(&vec![1, 2, 3]), Some(6));
    assert_eq!(columns::sum(&vec![u64::MAX, 1]), None);
    assert_eq!(columns::running(&vec![1, 0, 1, 1]), Some(vec![0, 1, 1, 2]));
    assert_eq!(columns::running(&vec![u64::MAX, 1]), None);
}

#[test]
fn searches() {
    assert_eq!(columns::find(&vec![0, 0, 5]), 2);
    assert_eq!(columns::find(&vec![0, 0]), 2);
    assert_eq!(columns::count(&vec![4, 5, 4], 4), 2);
    assert_eq!(columns::difference(&vec![1, 2, 3], &vec![1, 9, 3]), 1);
    assert_eq!(columns::difference(&vec![1, 2], &vec![1, 2, 3]), 2);
    assert!(columns::same(&vec![1, 2], &vec![1, 2]));
    assert!(!columns::same(&vec![1, 2], &vec![1, 2, 3]));
    assert_eq!(columns::repeat(&vec![7, 8, 7, 8]), 2);
    assert_eq!(columns::repeat(&vec![7, 8]), 2);
}

#[test]
fn sets_of_words_and_rows() {
    assert_eq!(columns::distinct(&vec![3, 3, 4]), 2);
    assert!(columns::same_set(&vec![1, 2, 2], &vec![2, 1]));
    assert!(!columns::same_set(&vec![1, 2], &vec![2]));
    let (a, b, c) = (vec![1, 1, 1], vec![2, 2, 3], vec![4, 4, 4]);
    assert_eq!(columns::distinct_rows(&a, &b, &c), 2);
    let (d, e, f) = (vec![1, 1], vec![3, 2], vec![4, 4]);
    assert!(columns::same_rows(&a, &b, &c, &d, &e, &f));
    assert!(!columns::same_rows(&a, &b, &c, &d, &e, &vec![4, 5]));
}

#[test]
fn sorting_follows_the_type() {
    let minus_one = (-1i64) as u64;
    assert_eq!(columns::sort(Scalar::U64, &vec![minus_one, 0, 7]), vec![0, 7, minus_one]);
    assert_eq!(columns::sort(Scalar::I64, &vec![7, 0, minus_one]), vec![minus_one, 0, 7]);
    let doubles = [1.5f64, f64::NEG_INFINITY, -0.0, 0.0, f64::INFINITY, -2.5];
    let words: Vec<u64> = doubles.iter().map(|d| d.to_bits()).collect();
    let sorted: Vec<u64> = [f64::NEG_INFINITY, -2.5, -0.0, 0.0, 1.5, f64::INFINITY]
        .iter()
        .map(|d| d.to_bits())
        .collect();
    assert_eq!(columns::sort(Scalar::F64, &words), sorted);
    assert_eq!(columns::sort(Scalar::U32, &vec![]), Vec::<u64>::new());
}

#[test]
fn ranks_follow_the_total_order() {
    assert_eq!(rank(Scalar::U32, 5), 5);
    assert_eq!(rank(Scalar::I64, i64::MIN as u64), 0);
    assert_eq!(rank(Scalar::I64, i64::MAX as u64), u64::MAX);
    let doubles = [
        -f64::NAN,
        f64::NEG_INFINITY,
        -1.0,
        -5e-324,
        -0.0,
        0.0,
        5e-324,
        1.0,
        f64::INFINITY,
        f64::NAN,
    ];
    for a in doubles {
        for b in doubles {
            let order = rank(Scalar::F64, a.to_bits()).cmp(&rank(Scalar::F64, b.to_bits()));
            assert_eq!(order, a.total_cmp(&b));
        }
    }
}

#[test]
fn falling_columns_sort_to_their_places() {
    for n in WARP_SIZES.iter().chain(BLOCK_SIZES.iter()).chain(PRIME_SIZES.iter()) {
        let falling: Vec<u64> = (0..*n).map(|i| n - 1 - i).collect();
        assert_eq!(columns::sort(Scalar::U32, &falling), (0..*n).collect::<Vec<u64>>());
    }
}

#[test]
fn scrambled_keys_sort_to_their_places() {
    let keys: Vec<u64> = (0..1000000u64).map(|i| (i * 1103515247 + 12345) % 1000000).collect();
    assert_eq!(columns::repeat(&keys), keys.len());
    assert_eq!(columns::sort(Scalar::U32, &keys), (0..1000000).collect::<Vec<u64>>());
}

#[test]
fn every_third_row_is_a_third_rounded_up() {
    for n in [0u64, 1, 2, 3, 4, 100000] {
        let mask: Vec<u64> = (0..n).map(|i| (i % 3 == 0) as u64).collect();
        assert_eq!(columns::sum(&mask), Some((n + 2) / 3));
    }
}

#[test]
fn columns_are_named() {
    assert_eq!(column_names(Layout::Val), vec!["val"]);
    assert_eq!(column_names(Layout::KeyVal), vec!["key", "val"]);
    assert_eq!(column_names(Layout::KeyLval), vec!["key", "lval"]);
    assert_eq!(column_names(Layout::KeyRval), vec!["key", "rval"]);
    assert_eq!(column_names(Layout::FourKeys), vec!["k1", "k2", "k3", "k4", "val"]);
    assert_eq!(column_names(Layout::Two), vec!["col0", "col1"]);
    assert_eq!(column_names(Layout::Three), vec!["col0", "col1", "col2"]);
    assert_eq!(column_names(Layout::Four), vec!["col0", "col1", "col2", "col3"]);
}

#[test]
fn tables_hold_bit_patterns() {
    assert_eq!(lookup(Table::BitPatterns, 4), Some(0xDEAD_BEEF_CAFE_BABE));
    assert_eq!(lookup(Table::BitPatterns, 6), None);
    assert_eq!(lookup(Table::Probabilities, 0), Some(0.1f32.to_bits() as u64));
    assert_eq!(lookup(Table::Probabilities, 1), Some(0.5f32.to_bits() as u64));
    assert_eq!(lookup(Table::Probabilities, 2), Some(0.9f32.to_bits() as u64));
}
