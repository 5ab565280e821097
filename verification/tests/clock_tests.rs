use jalert_receiver::clock::{now_millis, signed_millis};

#[test]
fn clock_spans_become_signed_millis() {
    assert_eq!(signed_millis(false, 1_500), 1_500);
    assert_eq!(signed_millis(true, 1_500), -1_500);
    assert_eq!(signed_millis(false, u128::MAX), i64::MAX);
    assert_eq!(signed_millis(true, u128::MAX), -i64::MAX);
    assert_eq!(signed_millis(true, 0), 0);
}

#[test]
fn the_clock_reads_after_1970() {
    let t = now_millis();
    assert!(t > 1_600_000_000_000);
}
