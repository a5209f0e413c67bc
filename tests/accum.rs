use iter_num_tools::{IterAdapter, Product2, Sum2};

#[test]
fn sum_num() {
    let x = vec![1, 2, 3, 4];
    assert_eq!(i32::sum2(&x), 10);
    assert_eq!(x.sum2(), 10);
}

#[test]
fn sum_opt() {
    let x = vec![Some(1), Some(2), Some(3), Some(4)];
    assert_eq!(x.sum2(), Some(10));

    let y = vec![None, Some(2), Some(3), Some(4)];
    assert_eq!(y.sum2(), None);
}

#[test]
fn prod_num() {
    let x = vec![1, 2, 3, 4];
    assert_eq!(i32::product2(&x), 24);
    assert_eq!(x.product2(), 24);
}

#[test]
fn prod_res() {
    let x: Vec<Result<i32, ()>> = vec![Ok(1), Ok(2), Ok(3), Ok(4)];
    assert_eq!(x.product2(), Ok(24));

    let y: Vec<Result<i32, ()>> = vec![Err(()), Ok(2), Ok(3), Ok(4)];
    assert_eq!(y.product2(), Err(()));
}

#[test]
fn empty_sum_and_product() {
    let x: Vec<u64> = vec![];
    assert_eq!(x.sum2(), 0);
    assert_eq!(x.product2(), 1);
    let y: Vec<Option<i64>> = vec![];
    assert_eq!(y.sum2(), Some(0));
}

#[test]
fn first_error_is_reported() {
    let x: Vec<Result<u32, u8>> = vec![Ok(1), Err(7), Ok(3), Err(9)];
    assert_eq!(x.sum2(), Err(7));
    let y = vec![Some(2i64), Some(5), None];
    assert_eq!(y.product2(), None);
    let z = vec![Some(2i64), Some(5)];
    assert_eq!(z.product2(), Some(10));
}

#[test]
fn short_circuit_skips_overflowing_tail() {
    // The sum stops at the first absent item, so the large items after it
    // are never added.
    let x = vec![Some(i32::MAX), None, Some(i32::MAX)];
    assert_eq!(x.sum2(), None);
}
