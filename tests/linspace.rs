use iter_num_tools::{lin_space, Bound};

#[test]
fn test_lin_space_inclusive() {
    let it = lin_space(1i64..=5, 5);
    assert_eq!(it.collect_vec(), vec![1, 2, 3, 4, 5]);
}

#[test]
fn test_lin_space_exclusive() {
    let it = lin_space(0i64..5, 5);
    assert_eq!(it.collect_vec(), vec![0, 1, 2, 3, 4]);
}

#[test]
fn test_lin_space_exclusive_rev() {
    let it = lin_space(0i64..5, 5);
    assert_eq!(it.collect_rev_vec(), vec![4, 3, 2, 1, 0]);
}

#[test]
fn test_lin_space_exclusive_len() {
    let mut it = lin_space(0i64..=5, 6);
    let mut expected_len = 6;

    assert_eq!(it.size_hint(), (expected_len, Some(expected_len)));

    while expected_len > 0 {
        assert_eq!(it.len(), expected_len);
        it.next();
        expected_len -= 1;

        assert_eq!(it.len(), expected_len);
        it.next_back();
        expected_len -= 1;
    }

    assert_eq!(it.len(), expected_len);
}

#[test]
fn test_lin_space_extras() {
    assert_eq!(lin_space(0i64..=5, 6).count(), 6);

    let mut it = lin_space(0i64..=5, 6);
    assert_eq!(it.nth(2), Some(2));
    assert_eq!(it.nth_back(2), Some(3));

    assert_eq!(lin_space(0i64..=5, 6).last(), Some(5));
}

#[test]
fn test_lin_space_advance_by() {
    let mut it = lin_space(0i64..=5, 6);
    it.advance_by(2).unwrap();
    assert_eq!(it.next(), Some(2));

    it.advance_back_by(2).unwrap();
    assert_eq!(it.next_back(), Some(3));
}

#[test]
fn lin_space_doc_examples() {
    assert_eq!(lin_space(20i64..=22, 3).collect_vec(), vec![20, 21, 22]);
    assert_eq!(lin_space(20i64..22, 2).collect_vec(), vec![20, 21]);
}

#[test]
fn lin_space_steps_are_rounded_toward_zero() {
    // 10 / 3 rounds to 3; the values are computed from the index, never summed.
    assert_eq!(lin_space(0i64..10, 3).collect_vec(), vec![0, 3, 6]);
    assert_eq!(lin_space(0i64..-10, 3).collect_vec(), vec![0, -3, -6]);
}

#[test]
fn lin_space_descending_and_unsigned() {
    assert_eq!(lin_space(10i64..=0, 3).collect_vec(), vec![10, 5, 0]);
    assert_eq!(lin_space(2u64..=8, 4).collect_vec(), vec![2, 4, 6, 8]);
}

#[test]
fn lin_space_empty_and_single() {
    let mut empty = lin_space(0i64..10, 0);
    assert_eq!(empty.len(), 0);
    assert_eq!(empty.next(), None);
    assert_eq!(empty.next_back(), None);
    assert_eq!(lin_space(3i64..=9, 1).collect_vec(), vec![3]);
}

#[test]
fn lin_space_bounds() {
    assert_eq!(
        lin_space(0i64..10, 5).bounds(),
        (Bound::Included(0), Bound::Excluded(10))
    );
    assert_eq!(
        lin_space(0i64..=10, 6).bounds(),
        (Bound::Included(0), Bound::Included(10))
    );
}

#[test]
fn lin_space_skip_past_end_exhausts() {
    let mut it = lin_space(0i64..5, 5);
    assert_eq!(it.nth(5), None);
    assert_eq!(it.len(), 0);
    assert_eq!(it.next(), None);

    let mut it = lin_space(0i64..5, 5);
    assert_eq!(it.nth_back(9), None);
    assert_eq!(it.len(), 0);

    let mut it = lin_space(0i64..5, 5);
    assert_eq!(it.advance_by(7), Err(2));
    assert_eq!(it.advance_back_by(1), Err(1));
}

#[test]
fn lin_space_largest_values() {
    let it = lin_space((i64::MIN + 2)..=0, 3);
    assert_eq!(it.collect_vec(), vec![i64::MIN + 2, i64::MIN + 1 + (1i64 << 62), 0]);
    let it = lin_space(0u64..=u64::MAX, 2);
    assert_eq!(it.collect_vec(), vec![0, u64::MAX]);
}
