use metis_router::fixed::{fp_complement, fp_div, fp_mul, price_impact_amount};
use metis_router::SCALE;

#[test]
fn fp_mul_exact_values() {
    // 1000 units times a rate of 0.001 is exactly one unit.
    assert_eq!(fp_mul(1_000 * SCALE, 1_000_000_000), SCALE);
    // 0.5 * 0.5 = 0.25
    assert_eq!(fp_mul(SCALE / 2, SCALE / 2), SCALE / 4);
    // Multiplying by one changes nothing.
    assert_eq!(fp_mul(123_456_789, SCALE), 123_456_789);
    // Multiplying by zero gives zero.
    assert_eq!(fp_mul(u64::MAX, 0), 0);
}

#[test]
fn fp_mul_saturates() {
    assert_eq!(fp_mul(u64::MAX, u64::MAX), u64::MAX);
}

#[test]
fn fp_div_exact_values() {
    // 1 / 2 = 0.5
    assert_eq!(fp_div(SCALE, 2 * SCALE), SCALE / 2);
    // Division by one changes nothing.
    assert_eq!(fp_div(987_654_321, SCALE), 987_654_321);
    // Floor division: 1 / 3 = 0.333333333333
    assert_eq!(fp_div(SCALE, 3 * SCALE), 333_333_333_333);
}

#[test]
fn fp_complement_floors_at_zero() {
    assert_eq!(fp_complement(0), SCALE);
    assert_eq!(fp_complement(500_000_000), SCALE - 500_000_000);
    assert_eq!(fp_complement(SCALE), 0);
    assert_eq!(fp_complement(u64::MAX), 0);
}

#[test]
fn price_impact_linear_model() {
    // Trading 1,000 units against a million-unit pool: impact is
    // (1000 / 1,000,000) * 0.5 = 0.0005.
    assert_eq!(
        price_impact_amount(1_000 * SCALE, 1_000_000 * SCALE),
        500_000_000
    );
    // An empty pool has unbounded impact.
    assert_eq!(price_impact_amount(1, 0), u64::MAX);
    // Zero trade, zero impact.
    assert_eq!(price_impact_amount(0, SCALE), 0);
}
