use proof_of_heart::fees::{BPS_CEIL_OFFSET, BPS_DENOMINATOR};
use proof_of_heart::version::contract_version;

#[test]
fn test_bps_ceil_offset_value() {
    assert_eq!(BPS_CEIL_OFFSET, 9_999);
    // Ceiling division property: (a + BPS_CEIL_OFFSET) / BPS_DENOMINATOR == ceil(a / BPS_DENOMINATOR)
    assert_eq!(BPS_CEIL_OFFSET / BPS_DENOMINATOR as i128, 0); // ceil(0/10000) = 0
    assert_eq!((1 + BPS_CEIL_OFFSET) / BPS_DENOMINATOR as i128, 1); // ceil(1/10000) = 1
    assert_eq!((9999 + BPS_CEIL_OFFSET) / BPS_DENOMINATOR as i128, 1); // ceil(9999/10000) = 1
    assert_eq!((10000 + BPS_CEIL_OFFSET) / BPS_DENOMINATOR as i128, 1); // ceil(10000/10000) = 1
    assert_eq!((10001 + BPS_CEIL_OFFSET) / BPS_DENOMINATOR as i128, 2); // ceil(10001/10000) = 2
}

#[test]
fn test_contract_version_readable_without_init() {
    // No initialisation is needed for the version query.
    assert_eq!(contract_version(), 1);
}

#[test]
fn bps_ceil_offset_rounds_up_for_samples() {
    let d = BPS_DENOMINATOR as i128;
    for a in [0i128, 1, 5_000, 9_999, 10_000, 10_001, 19_999, 20_000, 123_456_789] {
        let q = (a + BPS_CEIL_OFFSET) / d;
        assert!(q * d >= a);
        assert!((q - 1) * d < a);
    }
    assert_eq!(BPS_DENOMINATOR, 10_000);
}
