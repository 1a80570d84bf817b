use eve_metrade::market::{
    analyze_markets, best_route, cargo_unit_capacity, destination_units, hub_prices,
    route_status, suggested_buy_quantity, Analysis, AnalysisSettings, HubMarket, HubPrices,
    MarketOrder, RouteStatus,
};

const JITA: i64 = 60003760;
const AMARR: i64 = 60008494;

fn sell(location_id: i64, price: i64, volume_remain: i64) -> MarketOrder {
    MarketOrder { location_id, price, volume_remain, is_buy_order: false }
}

fn buy(location_id: i64, price: i64, volume_remain: i64) -> MarketOrder {
    MarketOrder { location_id, price, volume_remain, is_buy_order: true }
}

fn prices(lowest_sell: i64, reference_sell: i64, available_at_lowest: i128) -> HubPrices {
    HubPrices { lowest_sell, reference_sell, available_at_lowest }
}

fn settings() -> AnalysisSettings {
    AnalysisSettings {
        min_spread_bp: 2000,
        min_profit: 500_000,
        destination_volume_bp: 3000,
        min_source_volume: 1,
        min_destination_volume: 1,
        cargo_capacity: 7900,
        item_volume: Some(10),
    }
}

#[test]
fn hub_prices_of_an_empty_book_are_zero() {
    assert_eq!(hub_prices(&vec![], JITA, 5, 0), prices(0, 0, 0));
    let only_elsewhere = vec![sell(AMARR, 100, 5), buy(JITA, 90, 5)];
    assert_eq!(hub_prices(&only_elsewhere, JITA, 5, 0), prices(0, 0, 0));
}

#[test]
fn hub_prices_skip_thin_lowest_orders() {
    // One unit at 100, then four at 120, then plenty at 150.
    let book = vec![sell(JITA, 150, 50), sell(JITA, 100, 1), buy(JITA, 200, 99), sell(JITA, 120, 4), sell(AMARR, 50, 10)];
    assert_eq!(hub_prices(&book, JITA, 5, 0), prices(100, 120, 1));
    assert_eq!(hub_prices(&book, JITA, 6, 0), prices(100, 150, 1));
    // never deep enough: the highest price is the reference
    assert_eq!(hub_prices(&book, JITA, 1000, 0), prices(100, 150, 1));
    // ISK depth reached first: 1*100 + 4*120 = 580
    assert_eq!(hub_prices(&book, JITA, 1000, 580), prices(100, 120, 1));
    assert_eq!(hub_prices(&book, JITA, 1000, 581), prices(100, 150, 1));
}

#[test]
fn hub_prices_count_every_order_at_the_lowest_price() {
    let book = vec![sell(JITA, 100, 3), sell(JITA, 100, 4), sell(JITA, 130, 1)];
    assert_eq!(hub_prices(&book, JITA, 5, 0), prices(100, 100, 7));
}

#[test]
fn hub_prices_with_non_positive_lowest_price_are_zero() {
    let book = vec![sell(JITA, 0, 3), sell(JITA, 100, 4)];
    assert_eq!(hub_prices(&book, JITA, 1, 0), prices(0, 0, 0));
}

#[test]
fn cargo_and_destination_caps() {
    assert_eq!(cargo_unit_capacity(7900, Some(10)), Some(790));
    assert_eq!(cargo_unit_capacity(7900, None), None);
    assert_eq!(cargo_unit_capacity(0, Some(10)), None);
    assert_eq!(cargo_unit_capacity(7900, Some(0)), None);
    assert_eq!(destination_units(1001, 3000), 300);
    assert_eq!(destination_units(1001, 20000), 1001);
    assert_eq!(destination_units(1001, -5), 0);
    assert_eq!(destination_units(-7, 5000), -4);
    assert_eq!(suggested_buy_quantity(1000, Some(790), Some(300)), 300);
    assert_eq!(suggested_buy_quantity(100, Some(790), Some(300)), 100);
    assert_eq!(suggested_buy_quantity(-3, None, None), 0);
    assert_eq!(suggested_buy_quantity(50, Some(-1), None), 0);
}

#[test]
fn route_status_thresholds_in_order() {
    let cfg = settings();
    assert_eq!(route_status(0, 100, 1_000_000, 5, 5, &cfg), RouteStatus::NoSpread);
    assert_eq!(route_status(19, 100, 1_000_000, 5, 5, &cfg), RouteStatus::LowSpread);
    assert_eq!(route_status(20, 100, 499_999, 5, 5, &cfg), RouteStatus::LowProfit);
    assert_eq!(route_status(20, 100, 500_000, 0, 5, &cfg), RouteStatus::LowTraffic);
    assert_eq!(route_status(20, 100, 500_000, 5, 0, &cfg), RouteStatus::LowTraffic);
    assert_eq!(route_status(20, 100, 500_000, 5, 5, &cfg), RouteStatus::Good);
}

#[test]
fn best_route_prefers_the_largest_profit_and_the_first_among_equals() {
    let markets = vec![
        HubMarket { hub_id: 1, prices: prices(100, 110, 10), volume: 10 },
        HubMarket { hub_id: 2, prices: prices(0, 0, 0), volume: 10 },
        HubMarket { hub_id: 3, prices: prices(90, 200, 10), volume: 10 },
        HubMarket { hub_id: 4, prices: prices(150, 200, 10), volume: 10 },
    ];
    // buy at 3 (90), sell at 4 (reference 200)
    assert_eq!(best_route(&markets), Some((2, 3)));
    let ties = vec![
        HubMarket { hub_id: 1, prices: prices(100, 100, 1), volume: 1 },
        HubMarket { hub_id: 2, prices: prices(100, 100, 1), volume: 1 },
    ];
    assert_eq!(best_route(&ties), Some((0, 1)));
    assert_eq!(best_route(&markets[..2].to_vec()), None);
}

#[test]
fn analysis_without_enough_hubs() {
    let cfg = settings();
    let none = vec![HubMarket { hub_id: 1, prices: prices(0, 0, 0), volume: 7 }];
    assert_eq!(analyze_markets(&none, &cfg), Analysis::NoSellOrders);
    let one = vec![
        HubMarket { hub_id: 1, prices: prices(0, 0, 0), volume: 7 },
        HubMarket { hub_id: 2, prices: prices(10, 12, 3), volume: 9 },
    ];
    assert_eq!(analyze_markets(&one, &cfg), Analysis::OneHub { volume: 9 });
}

#[test]
fn analysis_builds_the_route_plan() {
    let cfg = settings();
    let markets = vec![
        HubMarket { hub_id: 1, prices: prices(1_000_000, 1_100_000, 2_000), volume: 5_000 },
        HubMarket { hub_id: 2, prices: prices(1_500_000, 1_600_000, 40), volume: 1_001 },
    ];
    match analyze_markets(&markets, &cfg) {
        Analysis::Route(plan) => {
            assert_eq!((plan.buy, plan.sell), (0, 1));
            assert_eq!(plan.buy_price, 1_000_000);
            assert_eq!(plan.sell_reference, 1_600_000);
            assert_eq!(plan.destination_lowest_sell, 1_500_000);
            assert_eq!(plan.profit_per_unit, 600_000);
            assert_eq!(plan.source_available, 2_000);
            assert_eq!(plan.cargo_units, Some(790));
            // min(2000, 790 cargo, 300 = 30% of 1001)
            assert_eq!(plan.suggested_buy_quantity, 300);
            assert_eq!(plan.estimated_profit, 180_000_000);
            assert_eq!(plan.status, RouteStatus::Good);
        }
        other => panic!("expected a route, got {:?}", other),
    }
}

#[test]
fn analysis_reports_inverted_books_as_no_spread() {
    let cfg = settings();
    let markets = vec![
        HubMarket { hub_id: 1, prices: prices(100, 100, 5), volume: 5 },
        HubMarket { hub_id: 2, prices: prices(100, 90, 5), volume: 5 },
    ];
    match analyze_markets(&markets, &cfg) {
        Analysis::Route(plan) => {
            assert_eq!((plan.buy, plan.sell), (1, 0));
            assert_eq!(plan.profit_per_unit, 0);
            assert_eq!(plan.estimated_profit, 0);
            assert_eq!(plan.status, RouteStatus::NoSpread);
        }
        other => panic!("expected a route, got {:?}", other),
    }
}
