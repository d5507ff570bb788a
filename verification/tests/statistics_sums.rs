use central_manage::statistics::{amounts_fit_check, sum_of_issued, sum_of_values, values_fit_check};

#[test]
fn sums_values_in_order() {
    assert_eq!(sum_of_values(&vec![]), 0);
    assert_eq!(sum_of_values(&vec![5, -3, 10]), 12);
}

#[test]
fn values_fit_detects_overflowing_running_total() {
    assert!(values_fit_check(&vec![i64::MAX, -1]));
    assert!(!values_fit_check(&vec![i64::MAX, 1, -5]));
    assert!(!values_fit_check(&vec![i64::MIN, -1]));
    assert!(values_fit_check(&vec![]));
}

#[test]
fn issued_amounts_multiply_first_two_numbers() {
    let rows = vec![
        vec![vec![2, 3], vec![4]],
        vec![vec![5, 6, 7], vec![]],
        vec![],
    ];
    assert_eq!(sum_of_issued(&rows), 6 + 0 + 30 + 0);
    assert!(amounts_fit_check(&rows));
}

#[test]
fn amounts_fit_detects_overflow() {
    assert!(!amounts_fit_check(&vec![vec![vec![i64::MAX, 2]]]));
    assert!(!amounts_fit_check(&vec![vec![vec![i64::MAX, 1], vec![1, 1]]]));
    assert!(amounts_fit_check(&vec![vec![vec![i64::MAX, 1], vec![-1, 1]]]));
}
