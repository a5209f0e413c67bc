use iter_num_tools::{arange, arange_grid, check_double_ended_iter, Bound};

#[test]
fn test_arange() {
    let it = arange(0i64..20, 5);
    assert_eq!(it.collect_vec(), vec![0, 5, 10, 15]);
}

#[test]
fn test_arange_bounds() {
    assert_eq!(
        arange(0i64..20, 5).bounds(),
        (Bound::Included(0), Bound::Excluded(20))
    );
}

#[test]
fn arange_count_rounds_up() {
    // 55 / 10 is 5.5, so there are 6 values.
    let it = arange(0i64..55, 10);
    assert_eq!(it.len(), 6);
    assert_eq!(it.collect_vec(), vec![0, 10, 20, 30, 40, 50]);
}

#[test]
fn arange_downward_and_empty() {
    assert_eq!(arange(10i64..0, -4).collect_vec(), vec![10, 6, 2]);
    assert_eq!(arange(3i64..3, 1).len(), 0);
    assert_eq!(arange(1u64..4, 1).collect_vec(), vec![1, 2, 3]);
}

#[test]
fn test_arange_grid_exclusive() {
    let (forward, backward) = check_double_ended_iter(arange_grid([0i64, 0]..[10, 20], [5i64, 10]));
    let expected = vec![[0, 0], [5, 0], [0, 10], [5, 10]];
    assert_eq!(forward, expected);
    assert_eq!(backward, expected);
}

#[test]
fn test_arange_grid_exclusive_len() {
    let mut it = arange_grid([0i64, 0]..[10, 20], 5i64);

    let mut expected_len = 8;

    assert_eq!(it.size_hint(), (expected_len, Some(expected_len)));

    while expected_len > 0 {
        assert_eq!(it.len(), expected_len);
        it.next();
        expected_len -= 1;
        assert_eq!(it.len(), expected_len);
        it.next_back();
        expected_len -= 1;
    }

    assert_eq!(it.len(), expected_len);
}

#[test]
fn test_arange_grid_bounds() {
    assert_eq!(
        arange_grid([0i64, 0]..[10, 20], [5i64, 10]).bounds(),
        (Bound::Included([0, 0]), Bound::Excluded([10, 20]))
    );
}

#[test]
fn test_arange_grid_single_bounds() {
    assert_eq!(
        arange_grid([0i64, 0]..[10, 20], 5i64).bounds(),
        (Bound::Included([0, 0]), Bound::Excluded([10, 20]))
    );
}

#[test]
fn arange_grid_three_axes() {
    let it = arange_grid([0i64, 0, 0]..[2, 2, 2], 1i64);
    assert_eq!(
        it.collect_vec(),
        vec![
            [0, 0, 0],
            [1, 0, 0],
            [0, 1, 0],
            [1, 1, 0],
            [0, 0, 1],
            [1, 0, 1],
            [0, 1, 1],
            [1, 1, 1],
        ]
    );
}
