use iter_num_tools::{combine, MapWith};

#[test]
fn test_iter() {
    let mut it = MapWith::new(0..5, |x| 2 * x);
    for e in [0, 2, 4, 6, 8] {
        assert_eq!(it.next(), Some(e));
    }
    assert_eq!(it.next(), None);
}

#[test]
fn test_count() {
    let it = MapWith::new(0..5, |x| 2 * x);
    assert_eq!(it.count(), 5);
}

#[test]
fn test_last() {
    let it = MapWith::new(0..5, |x| 2 * x);
    assert_eq!(it.last(), Some(8));
}

#[test]
fn test_reverse() {
    let mut it = MapWith::new(0..5, |x| 2 * x);
    for e in [8, 6, 4, 2, 0] {
        assert_eq!(it.next_back(), Some(e));
    }
    assert_eq!(it.next_back(), None);
}

#[test]
fn test_combine() {
    let i = (0..6).step_by(3).map(|i| ((i, i + 1), i + 2));

    let mut it = combine(i);
    assert_eq!(it.next(), Some((0, 1, 2)));
    assert_eq!(it.next(), Some((3, 4, 5)));
    assert_eq!(it.next(), None);
}

#[test]
fn combine_four() {
    let i = vec![((1, 2, 3), 4), ((5, 6, 7), 8)].into_iter();
    let mut it = combine(i);
    assert_eq!(it.next_back(), Some((5, 6, 7, 8)));
    assert_eq!(it.next(), Some((1, 2, 3, 4)));
    assert_eq!(it.next(), None);
}

#[test]
fn empty_map() {
    let it = MapWith::new(0..0, |x: i32| x + 1);
    assert_eq!(it.last(), None);
}
