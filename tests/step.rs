use iter_num_tools::{Function, LinSpaceFn, Step, Transpose};

#[test]
fn integer_steps() {
    assert_eq!(i64::steps_between(&-3, &4), Some(7));
    assert_eq!(i64::steps_between(&4, &-3), None);
    assert_eq!(i64::forward(-3, 7), Some(4));
    assert_eq!(i64::forward(i64::MAX - 1, 2), None);
    assert_eq!(i32::forward(-120, 200), Some(80));
    assert_eq!(u64::steps_between(&5, &5), Some(0));
    assert_eq!(u64::forward(u64::MAX, 1), None);
    assert_eq!(usize::forward(1, 2), Some(3));
    assert_eq!(i64::steps_between(&i64::MIN, &i64::MAX), Some(usize::MAX));
}

#[test]
fn char_steps_skip_surrogates() {
    assert_eq!(char::steps_between(&'a', &'e'), Some(4));
    assert_eq!(char::steps_between(&'\u{D7FF}', &'\u{E000}'), Some(1));
    assert_eq!(char::forward('\u{D7FF}', 1), Some('\u{E000}'));
    assert_eq!(char::forward('a', 2), Some('c'));
    assert_eq!(char::forward(char::MAX, 1), None);
    assert_eq!(char::steps_between(&'z', &'a'), None);
}

#[test]
fn lin_space_fn_divides_before_scaling() {
    let f = LinSpaceFn::new(10i64..=20, 5);
    assert_eq!(f.call(0), 10);
    assert_eq!(f.call(4), 10);
    assert_eq!(f.call(5), 20);
    assert_eq!(f.call(10), 30);
}

#[test]
fn transpose_ranges() {
    let (a, b) = ((0, 'a')..(3, 'd')).transpose();
    assert_eq!(a, 0..3);
    assert_eq!(b, 'a'..'d');
    let (a, b, c) = ((0, 1, 2)..=(3, 4, 5)).transpose();
    assert_eq!((a, b, c), (0..=3, 1..=4, 2..=5));
    let (a, b, c, d) = ((0, 1, 2, 3)..(4, 5, 6, 7)).transpose();
    assert_eq!((a, b, c, d), (0..4, 1..5, 2..6, 3..7));
}
