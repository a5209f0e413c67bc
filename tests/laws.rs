use iter_num_tools::{arange, grid_space, lin_space, Interpolate, LinearInterpolation};

#[test]
fn count_matches_steps_and_len_counts_down() {
    for steps in 0..6usize {
        assert_eq!(lin_space(0i32..60, steps).count(), steps);
    }
    for steps in 1..6usize {
        let mut it = lin_space(0i32..=60, steps);
        let mut left = steps;
        while left > 0 {
            assert_eq!(it.len(), left);
            if left % 2 == 0 {
                assert!(it.next().is_some());
            } else {
                assert!(it.next_back().is_some());
            }
            left -= 1;
        }
        assert_eq!(it.len(), 0);
        assert_eq!(it.next(), None);
    }
}

#[test]
fn inclusive_end_is_reached() {
    assert_eq!(lin_space(-7i64..=29, 5).last(), Some(29));
    // 10 does not split into 3 intervals: the last value stops short by less
    // than 3.
    assert_eq!(lin_space(0i64..=10, 4).last(), Some(9));
}

#[test]
fn exclusive_end_is_never_produced() {
    let it = lin_space(3u32..27, 4);
    let values = it.collect_vec();
    assert_eq!(values, vec![3, 9, 15, 21]);
    assert!(!values.contains(&27));
    let strategy = LinearInterpolation { start: 3u32, step: 6 };
    assert_eq!(strategy.interpolate(4), 27);
}

#[test]
fn reversible_for_linear_and_grid() {
    let forward = lin_space(0i64..5, 5).collect_vec();
    let mut backward = lin_space(0i64..5, 5).collect_rev_vec();
    backward.reverse();
    assert_eq!(forward, backward);

    let forward = grid_space([0i64, 0, 0]..[3, 4, 2], [3, 2, 2]).collect_vec();
    let mut backward = grid_space([0i64, 0, 0]..[3, 4, 2], [3, 2, 2]).collect_rev_vec();
    backward.reverse();
    assert_eq!(forward.len(), 12);
    assert_eq!(forward, backward);
}

#[test]
fn nth_matches_repeated_next() {
    let reference = arange(-5i64..17, 2);
    for k in 0..=reference.len() + 1 {
        let mut skipped = arange(-5i64..17, 2);
        let mut stepped = arange(-5i64..17, 2);
        let mut last = None;
        for _ in 0..=k {
            last = stepped.next();
        }
        assert_eq!(skipped.nth(k), last);
        assert_eq!(skipped.collect_vec(), stepped.collect_vec());
    }
}

#[test]
fn interpolation_is_stable() {
    let mut it = lin_space(100i64..=0, 11);
    let before = it.nth(3);
    it.next_back();
    it.next_back();
    let strategy = LinearInterpolation { start: 100i64, step: -10 };
    assert_eq!(before, Some(strategy.interpolate(3)));
    assert_eq!(it.next(), Some(strategy.interpolate(4)));
    assert_eq!(strategy.interpolate(3), strategy.interpolate(3));
}
