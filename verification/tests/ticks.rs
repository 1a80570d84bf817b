use eve_metrade::ticks::{market_tick_size, previous_market_tick, round_down_market_tick, CENT, UNITS_PER_ISK};

/// Prices are kept in ten-thousandths of an ISK.
fn units(isk: f64) -> i64 {
    (isk * UNITS_PER_ISK as f64).round() as i64
}

#[test]
fn market_tick_size_uses_four_significant_digits() {
    assert_eq!(market_tick_size(units(1_000_000.0)), units(1000.0));
    assert_eq!(market_tick_size(units(999_999.99)), units(100.0));
    assert_eq!(market_tick_size(units(9_999.99)), units(1.0));
    assert_eq!(market_tick_size(units(9.99)), units(0.01));
}

#[test]
fn round_down_market_tick_matches_eve_examples() {
    assert_eq!(round_down_market_tick(units(1_112_345.67)), units(1_112_000.0));
    assert_eq!(round_down_market_tick(units(1_001_999.99)), units(1_001_000.0));
    assert_eq!(round_down_market_tick(units(999_999.99)), units(999_900.0));
    assert_eq!(round_down_market_tick(units(33.019)), units(33.01));
}

#[test]
fn previous_market_tick_is_valid_price_below_competitor() {
    assert_eq!(previous_market_tick(units(1_000_000.0)), units(999_900.0));
    assert_eq!(previous_market_tick(units(1_112_000.0)), units(1_111_000.0));
    assert_eq!(previous_market_tick(units(999_900.0)), units(999_800.0));
    assert_eq!(previous_market_tick(units(33.01)), units(33.0));
}

#[test]
fn tick_size_of_non_positive_price_is_one_cent() {
    assert_eq!(market_tick_size(0), CENT);
    assert_eq!(market_tick_size(-5), CENT);
    assert_eq!(market_tick_size(i64::MAX), 1_000_000_000_000_000);
}

#[test]
fn round_down_of_tiny_price_is_one_cent() {
    assert_eq!(round_down_market_tick(0), CENT);
    assert_eq!(round_down_market_tick(units(0.005)), CENT);
    assert_eq!(round_down_market_tick(CENT), CENT);
    assert_eq!(previous_market_tick(units(0.02)), CENT);
    assert_eq!(previous_market_tick(units(0.03)), units(0.02));
}

#[test]
fn rounding_twice_changes_nothing() {
    for isk in [1_112_345.67, 33.019, 999_999.99, 12.3456, 7.0] {
        let once = round_down_market_tick(units(isk));
        assert_eq!(round_down_market_tick(once), once);
        assert!(once <= units(isk));
    }
}

#[test]
fn rounding_keeps_order() {
    let prices = [units(9.99), units(10.0), units(99_999.0), units(100_001.5), units(2_500_000.0)];
    for a in prices {
        for b in prices {
            if a <= b {
                assert!(round_down_market_tick(a) <= round_down_market_tick(b));
            }
        }
    }
}

#[test]
fn previous_tick_is_below_and_on_the_grid() {
    for isk in [1_000_000.0, 33.01, 5.0, 1_234_567.0] {
        let p = units(isk);
        let below = previous_market_tick(p);
        assert!(below < p);
        assert_eq!(round_down_market_tick(below), below);
    }
}
