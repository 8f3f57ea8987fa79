use proof_of_heart::error::Error;
use proof_of_heart::lifecycle::{calculate_deadline, SECONDS_PER_DAY};

#[test]
fn test_calculate_deadline_happy_path() {
    let current_time = 1_000_000;
    let duration_days = 30;
    let expected = current_time + duration_days * SECONDS_PER_DAY;
    assert_eq!(
        calculate_deadline(current_time, duration_days).unwrap(),
        expected
    );
}

#[test]
fn test_calculate_deadline_zero_days() {
    let current_time = 1_000_000;
    assert_eq!(calculate_deadline(current_time, 0).unwrap(), current_time);
}

#[test]
fn test_calculate_deadline_overflow_rejected() {
    let huge_days = u64::MAX / SECONDS_PER_DAY + 1;
    assert_eq!(
        calculate_deadline(0, huge_days),
        Err(Error::ValidationFailed)
    );
}

#[test]
fn deadline_is_exact_seconds_of_ledger_time() {
    assert_eq!(SECONDS_PER_DAY, 86_400);
    assert_eq!(calculate_deadline(1_000_000, 30), Ok(3_592_000));
    assert_eq!(calculate_deadline(0, 1), Ok(86_400));
}

#[test]
fn deadline_addition_overflow_rejected() {
    assert_eq!(
        calculate_deadline(u64::MAX - 86_399, 1),
        Err(Error::ValidationFailed)
    );
    assert_eq!(calculate_deadline(u64::MAX - 86_400, 1), Ok(u64::MAX));
    assert_eq!(calculate_deadline(u64::MAX, 0), Ok(u64::MAX));
}
