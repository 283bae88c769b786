use roll::dice::dice_total;
use roll::dice::EvalError;

#[test]
fn zero_dice_give_zero_whatever_the_faces() {
    assert_eq!(dice_total(0, 6, &vec![]), Ok(0));
    assert_eq!(dice_total(0, 0, &vec![]), Ok(0));
}

#[test]
fn negative_dice_count_is_rejected() {
    assert_eq!(dice_total(-1, 6, &vec![]), Err(EvalError::NegativeDiceCount));
}

#[test]
fn non_positive_faces_are_rejected() {
    assert_eq!(dice_total(2, 0, &vec![]), Err(EvalError::NonPositiveFaces));
    assert_eq!(dice_total(1, -3, &vec![]), Err(EvalError::NonPositiveFaces));
}

#[test]
fn two_four_sided_dice_stay_in_range() {
    for a in 1..=4 {
        for b in 1..=4 {
            let v = dice_total(2, 4, &vec![a, b]).unwrap();
            assert_eq!(v, a + b);
            assert!((2..=8).contains(&v));
        }
    }
}

#[test]
fn large_rolls_overflow() {
    assert_eq!(dice_total(2, i64::MAX, &vec![i64::MAX, 1]), Err(EvalError::Overflow));
}
