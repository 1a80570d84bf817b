use eve_metrade::orders::{check_order, lowest_competing_price, OrderCheck, PublicOrder};
use eve_metrade::ticks::previous_market_tick;

const STATION: i64 = 60003760;

fn public(order_id: Option<i64>, location_id: i64, price: i64, is_buy_order: bool) -> PublicOrder {
    PublicOrder { order_id, location_id, price, is_buy_order }
}

#[test]
fn competition_leaves_out_our_order_buys_and_other_stations() {
    let orders = vec![
        public(Some(1), STATION, 90_000, false), // ours
        public(Some(2), STATION, 80_000, true),  // a buy order
        public(Some(3), 1, 70_000, false),       // elsewhere
        public(Some(4), STATION, 99_000, false),
        public(None, STATION, 95_000, false),
    ];
    assert_eq!(lowest_competing_price(&orders, 1, STATION), Some(95_000));
    assert_eq!(lowest_competing_price(&orders[..3].to_vec(), 1, STATION), None);
}

#[test]
fn undercut_orders_get_a_suggested_price() {
    let orders = vec![public(Some(9), STATION, 1_000_000_0000, false)];
    let check = check_order(&orders, 1, STATION, 1_000_100_0000);
    assert_eq!(
        check,
        OrderCheck {
            lowest_competing_price: Some(1_000_000_0000),
            is_undercut: true,
            suggested_update_price: Some(999_900_0000),
        }
    );
    assert_eq!(check.suggested_update_price, Some(previous_market_tick(1_000_000_0000)));
}

#[test]
fn small_differences_are_no_undercut() {
    let orders = vec![public(Some(9), STATION, 99_995, false)];
    // cheaper by 5 units (0.0005 ISK): within the margin
    assert!(!check_order(&orders, 1, STATION, 100_000).is_undercut);
    // cheaper by 11 units
    assert!(check_order(&orders, 1, STATION, 100_006).is_undercut);
    // we are the cheapest
    assert!(!check_order(&orders, 1, STATION, 90_000).is_undercut);
    let alone = check_order(&vec![], 1, STATION, 100_000);
    assert_eq!(alone, OrderCheck { lowest_competing_price: None, is_undercut: false, suggested_update_price: None });
}
