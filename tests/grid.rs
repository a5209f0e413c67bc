use iter_num_tools::{check_double_ended_iter, grid_space, grid_step, Bound};

#[test]
fn gridspace_test_grid_space_exclusive() {
    let (forward, backward) = check_double_ended_iter(grid_space([0i64, 0]..[2, 4], [2, 4]));
    let expected = vec![[0, 0], [1, 0], [0, 1], [1, 1], [0, 2], [1, 2], [0, 3], [1, 3]];
    assert_eq!(forward, expected);
    assert_eq!(backward, expected);
}

#[test]
fn gridspace_test_grid_space_inclusive() {
    let (forward, backward) = check_double_ended_iter(grid_space([0i64, 0]..=[2, 4], [3, 5]));
    let expected = vec![
        [0, 0],
        [1, 0],
        [2, 0],
        [0, 1],
        [1, 1],
        [2, 1],
        [0, 2],
        [1, 2],
        [2, 2],
        [0, 3],
        [1, 3],
        [2, 3],
        [0, 4],
        [1, 4],
        [2, 4],
    ];
    assert_eq!(forward, expected);
    assert_eq!(backward, expected);
}

#[test]
fn test_grid_space_exclusive_single() {
    let (forward, backward) = check_double_ended_iter(grid_space([0i64, 0]..[2, 2], 2));
    let expected = vec![[0, 0], [1, 0], [0, 1], [1, 1]];
    assert_eq!(forward, expected);
    assert_eq!(backward, expected);
}

#[test]
fn test_grid_space_inclusive_single() {
    let (forward, backward) = check_double_ended_iter(grid_space([0i64, 0]..=[2, 2], 3));
    let expected = vec![
        [0, 0],
        [1, 0],
        [2, 0],
        [0, 1],
        [1, 1],
        [2, 1],
        [0, 2],
        [1, 2],
        [2, 2],
    ];
    assert_eq!(forward, expected);
    assert_eq!(backward, expected);
}

#[test]
fn gridspace_test_grid_space_exclusive_len() {
    let mut it = grid_space([0i64, 0]..[2, 4], [2, 4]);

    let mut expected_len = 2 * 4;

    assert_eq!(it.size_hint(), (expected_len, Some(expected_len)));

    while expected_len > 0 {
        assert_eq!(it.len(), expected_len);
        it.next();
        expected_len -= 1;
        assert_eq!(it.len(), expected_len);
        it.next_back();
        expected_len -= 1;
    }

    assert_eq!(it.len(), expected_len);
}

#[test]
fn gridspace_test_grid_inclusive_bounds() {
    assert_eq!(
        grid_space([0i64, 0]..=[2, 4], [3, 5]).bounds(),
        (Bound::Included([0, 0]), Bound::Included([2, 4]))
    );
}

#[test]
fn gridspace_test_grid_exclusive_bounds() {
    assert_eq!(
        grid_space([0i64, 0]..[2, 4], [2, 4]).bounds(),
        (Bound::Included([0, 0]), Bound::Excluded([2, 4]))
    );
}

#[test]
fn grid_space_three_axes() {
    let it = grid_space([0i64, 0, 0]..=[1, 1, 1], 2);
    assert_eq!(
        it.collect_vec(),
        vec![
            [0, 0, 0],
            [1, 0, 0],
            [0, 1, 0],
            [1, 1, 0],
            [0, 0, 1],
            [1, 0, 1],
            [0, 1, 1],
            [1, 1, 1],
        ]
    );
}

#[test]
fn grid_space_flat_order_scaled() {
    // Axis 0 has 2 values and axis 1 has 4: 8 points, axis 0 fastest.
    let it = grid_space([0i64, 0]..[20, 40], [2, 4]);
    assert_eq!(
        it.collect_vec(),
        vec![[0, 0], [10, 0], [0, 10], [10, 10], [0, 20], [10, 20], [0, 30], [10, 30]]
    );
}

#[test]
fn grid_space_skips_in_flat_order() {
    let mut it = grid_space([0i64, 0]..[2, 4], [2, 4]);
    assert_eq!(it.nth(4), Some([0, 2]));
    assert_eq!(it.nth_back(1), Some([0, 3]));
    assert_eq!(it.len(), 1);
    assert_eq!(it.clone().next(), Some([1, 2]));
    assert_eq!(it.next_back(), Some([1, 2]));
    assert_eq!(it.next(), None);
}

#[test]
fn gridstep_test_grid_space_exclusive() {
    let (forward, backward) = check_double_ended_iter(grid_step([0, 0]..[2, 4]));
    let expected = vec![[0, 0], [1, 0], [0, 1], [1, 1], [0, 2], [1, 2], [0, 3], [1, 3]];
    assert_eq!(forward, expected);
    assert_eq!(backward, expected);
}

#[test]
fn gridstep_test_grid_space_inclusive() {
    let (forward, backward) = check_double_ended_iter(grid_step([0, 0]..=[1, 3]));
    let expected = vec![[0, 0], [1, 0], [0, 1], [1, 1], [0, 2], [1, 2], [0, 3], [1, 3]];
    assert_eq!(forward, expected);
    assert_eq!(backward, expected);
}

#[test]
fn gridstep_test_grid_space_exclusive_len() {
    let mut it = grid_step([0, 0]..[2, 4]);

    let mut expected_len = 2 * 4;

    assert_eq!(it.size_hint(), (expected_len, Some(expected_len)));

    while expected_len > 0 {
        assert_eq!(it.len(), expected_len);
        it.next();
        expected_len -= 1;
        assert_eq!(it.len(), expected_len);
        it.next_back();
        expected_len -= 1;
    }

    assert_eq!(it.len(), expected_len);
}

#[test]
fn gridstep_test_grid_inclusive_bounds() {
    assert_eq!(
        grid_step([0, 0]..=[1, 2]).bounds(),
        (Bound::Included([0, 0]), Bound::Included([1, 2]))
    );
}

#[test]
fn gridstep_test_grid_exclusive_bounds() {
    assert_eq!(
        grid_step([0, 0]..[1, 2]).bounds(),
        (Bound::Included([0, 0]), Bound::Excluded([1, 2]))
    );
}

#[test]
fn grid_step_three_axes() {
    let it = grid_step([0i64, 0, 0]..=[1, 1, 1]);
    assert_eq!(
        it.collect_vec(),
        vec![
            [0, 0, 0],
            [1, 0, 0],
            [0, 1, 0],
            [1, 1, 0],
            [0, 0, 1],
            [1, 0, 1],
            [0, 1, 1],
            [1, 1, 1],
        ]
    );
}

#[test]
fn grid_step_over_chars() {
    let it = grid_step(['a', 'x']..=['b', 'y']);
    assert_eq!(it.collect_vec(), vec![['a', 'x'], ['b', 'x'], ['a', 'y'], ['b', 'y']]);
    // The surrogate gap is skipped: the step after U+D7FF is U+E000.
    let it = grid_step(['\u{D7FE}']..=['\u{E000}']);
    assert_eq!(it.collect_vec(), vec![['\u{D7FE}'], ['\u{D7FF}'], ['\u{E000}']]);
}
