use eve_metrade::fifo::{fifo_cost_basis, CostBasis, Purchase};

fn p(quantity: i64, unit_price: i64) -> Purchase {
    Purchase { quantity, unit_price }
}

#[test]
fn nothing_needed_or_nothing_bought_has_no_basis() {
    assert_eq!(fifo_cost_basis(&vec![p(5, 100)], 0), None);
    assert_eq!(fifo_cost_basis(&vec![p(5, 100)], -3), None);
    assert_eq!(fifo_cost_basis(&vec![], 10), None);
    assert_eq!(fifo_cost_basis(&vec![p(0, 100), p(-2, 50)], 10), None);
}

#[test]
fn oldest_purchases_are_matched_first() {
    let rows = vec![p(3, 100), p(5, 200), p(10, 400)];
    // 3 at 100 + 4 at 200
    assert_eq!(fifo_cost_basis(&rows, 7), Some(CostBasis { total_cost: 1100, matched: 7 }));
    assert_eq!(fifo_cost_basis(&rows, 3), Some(CostBasis { total_cost: 300, matched: 3 }));
}

#[test]
fn matching_stops_at_what_was_bought() {
    let rows = vec![p(3, 100), p(-4, 999), p(2, 50)];
    assert_eq!(fifo_cost_basis(&rows, 100), Some(CostBasis { total_cost: 400, matched: 5 }));
}
