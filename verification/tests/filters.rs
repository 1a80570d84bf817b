use eve_metrade::filters::{
    filter_opportunities, filter_our_orders, filter_transactions, AccountFilters, Filters,
    OpportunityText, OrderText, TransactionText,
};

fn opp(status: &str, direction: &str, type_id: i64, item_name: &str, notes: &str) -> OpportunityText {
    OpportunityText {
        status: status.to_string(),
        direction: direction.to_string(),
        type_id,
        item_name: item_name.to_string(),
        notes: notes.to_string(),
        script_notes: "Below minimum spread.".to_string(),
    }
}

fn account(search: &str) -> AccountFilters {
    AccountFilters {
        search: search.to_string(),
        character_id: None,
        station: String::new(),
        undercut_only: false,
        unknown_cost_only: false,
        side: "ALL".to_string(),
    }
}

fn order(character_id: i64, type_id: i64, item: &str, station: &str, undercut: bool, cost: bool) -> OrderText {
    OrderText {
        character_id,
        character_name: format!("Pilot {}", character_id),
        type_id,
        item_name: item.to_string(),
        station_name: station.to_string(),
        is_undercut: undercut,
        has_cost_basis: cost,
    }
}

fn tx(character_id: i64, type_id: i64, item: &str, station: &str, is_buy: bool) -> TransactionText {
    TransactionText {
        character_id,
        type_id,
        item_name: item.to_string(),
        station_name: station.to_string(),
        is_buy,
    }
}

#[test]
fn opportunity_filters_by_status_direction_and_search() {
    let rows = vec![
        opp("GOOD", "Jita -> Amarr", 34, "Tritanium", ""),
        opp("LOW SPREAD", "Jita -> Amarr", 35, "Pyerite", "watch"),
        opp("GOOD", "Amarr -> Jita", 36, "Mexallon", "WATCH closely"),
    ];
    let all = Filters { search: String::new(), status: "ALL".to_string(), direction: "ALL".to_string() };
    assert_eq!(filter_opportunities(&rows, &all), vec![0, 1, 2]);
    let good = Filters { search: "  ".to_string(), status: "GOOD".to_string(), direction: "ALL".to_string() };
    assert_eq!(filter_opportunities(&rows, &good), vec![0, 2]);
    let route = Filters { search: String::new(), status: "ALL".to_string(), direction: "Jita -> Amarr".to_string() };
    assert_eq!(filter_opportunities(&rows, &route), vec![0, 1]);
    let watch = Filters { search: " Watch ".to_string(), status: "ALL".to_string(), direction: "ALL".to_string() };
    assert_eq!(filter_opportunities(&rows, &watch), vec![1, 2]);
    let by_id = Filters { search: "36".to_string(), status: "ALL".to_string(), direction: "ALL".to_string() };
    assert_eq!(filter_opportunities(&rows, &by_id), vec![2]);
    let script = Filters { search: "minimum".to_string(), status: "GOOD".to_string(), direction: "ALL".to_string() };
    assert_eq!(filter_opportunities(&rows, &script), vec![0, 2]);
}

#[test]
fn order_filters() {
    let rows = vec![
        order(1, 34, "Tritanium", "Jita IV - Moon 4", true, true),
        order(2, 35, "Pyerite", "Amarr VIII", false, false),
        order(1, 36, "Mexallon", "Amarr VIII", true, false),
    ];
    assert_eq!(filter_our_orders(&rows, &account("")), vec![0, 1, 2]);
    let mut f = account("");
    f.character_id = Some(1);
    assert_eq!(filter_our_orders(&rows, &f), vec![0, 2]);
    f.undercut_only = true;
    f.unknown_cost_only = true;
    assert_eq!(filter_our_orders(&rows, &f), vec![2]);
    let mut s = account("");
    s.station = "Amarr VIII".to_string();
    assert_eq!(filter_our_orders(&rows, &s), vec![1, 2]);
    assert_eq!(filter_our_orders(&rows, &account("pilot 2")), vec![1]);
    assert_eq!(filter_our_orders(&rows, &account("JITA")), vec![0]);
}

#[test]
fn transaction_filters() {
    let rows = vec![
        tx(1, 34, "Tritanium", "Jita IV", true),
        tx(1, 35, "Pyerite", "Jita IV", false),
        tx(2, 34, "Tritanium", "Amarr VIII", false),
    ];
    let mut f = account("");
    f.side = "BUY".to_string();
    assert_eq!(filter_transactions(&rows, &f), vec![0]);
    f.side = "SELL".to_string();
    assert_eq!(filter_transactions(&rows, &f), vec![1, 2]);
    f.side = "anything".to_string();
    f.character_id = Some(2);
    assert_eq!(filter_transactions(&rows, &f), vec![2]);
    assert_eq!(filter_transactions(&rows, &account("amarr tritanium")), Vec::<usize>::new());
    assert_eq!(filter_transactions(&rows, &account("tritanium amarr")), vec![2]);
    assert_eq!(filter_transactions(&rows, &account("34 tritanium")), vec![0, 2]);
}
