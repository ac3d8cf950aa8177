use compute_core::calculator::{is_representable, perform_calculation, Operation};

#[test]
fn adds_two_numbers() {
    assert_eq!(perform_calculation(7, 3, Operation::Add), Ok(10));
}

#[test]
fn subtracts_two_numbers() {
    assert_eq!(perform_calculation(7, 10, Operation::Subtract), Ok(-3));
}

#[test]
fn multiplies_two_numbers() {
    assert_eq!(perform_calculation(-6, 7, Operation::Multiply), Ok(-42));
}

#[test]
fn divides_two_numbers() {
    assert_eq!(perform_calculation(10, 2, Operation::Divide), Ok(5));
}

#[test]
fn division_rounds_toward_zero() {
    assert_eq!(perform_calculation(7, 2, Operation::Divide), Ok(3));
    assert_eq!(perform_calculation(-7, 2, Operation::Divide), Ok(-3));
    assert_eq!(perform_calculation(7, -2, Operation::Divide), Ok(-3));
    assert_eq!(perform_calculation(-7, -2, Operation::Divide), Ok(3));
    assert_eq!(perform_calculation(0, -5, Operation::Divide), Ok(0));
}

#[test]
fn rejects_division_by_zero() {
    assert_eq!(
        perform_calculation(10, 0, Operation::Divide),
        Err("Cannot divide by zero".to_string())
    );
}

#[test]
fn zero_divided_by_zero_is_rejected_too() {
    assert_eq!(
        perform_calculation(0, 0, Operation::Divide),
        Err("Cannot divide by zero".to_string())
    );
}

#[test]
fn results_at_the_edge_of_the_range() {
    assert_eq!(perform_calculation(i32::MAX, 0, Operation::Add), Ok(i32::MAX));
    assert_eq!(perform_calculation(i32::MIN, 0, Operation::Subtract), Ok(i32::MIN));
    assert_eq!(perform_calculation(i32::MIN, 1, Operation::Divide), Ok(i32::MIN));
    assert_eq!(perform_calculation(i32::MAX, -1, Operation::Divide), Ok(-i32::MAX));
    assert_eq!(perform_calculation(i32::MIN, i32::MIN, Operation::Divide), Ok(1));
    assert_eq!(perform_calculation(46340, 46340, Operation::Multiply), Ok(2_147_395_600));
}

#[test]
fn representable_requests() {
    assert!(is_representable(7, 3, Operation::Add));
    assert!(is_representable(i32::MAX, -1, Operation::Add));
    assert!(is_representable(i32::MIN, -1, Operation::Subtract));
    assert!(is_representable(-65536, 32768, Operation::Multiply));
    assert!(is_representable(i32::MIN, 1, Operation::Divide));
    assert!(is_representable(10, 0, Operation::Divide));
    assert!(is_representable(i32::MIN, 0, Operation::Divide));
}

#[test]
fn unrepresentable_requests() {
    assert!(!is_representable(i32::MAX, 1, Operation::Add));
    assert!(!is_representable(i32::MIN, -1, Operation::Add));
    assert!(!is_representable(i32::MIN, 1, Operation::Subtract));
    assert!(!is_representable(65536, 32768, Operation::Multiply));
    assert!(!is_representable(46341, 46341, Operation::Multiply));
    assert!(!is_representable(i32::MIN, -1, Operation::Divide));
}
