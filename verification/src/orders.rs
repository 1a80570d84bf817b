//! Checks of our own sell orders against the public market: the lowest
//! competing price at the order's station, whether we were undercut, and the
//! tick price to update to. Prices are fixed-point units as in `ticks`.

use vstd::prelude::*;
use crate::ticks::{is_tick_price, law_previous_tick_is_greatest_below, previous_market_tick, spec_previous_tick, CENT};

verus! {

/// A public market order, as much of it as comparing prices needs.
#[derive(Clone, Copy, Debug, PartialEq, Eq)]
pub struct PublicOrder {
    pub order_id: Option<i64>,
    pub location_id: i64,
    pub price: i64,
    pub is_buy_order: bool,
}

/// The outcome of checking one of our sell orders.
#[derive(Clone, Copy, Debug, PartialEq, Eq)]
pub struct OrderCheck {
    pub lowest_competing_price: Option<i64>,
    pub is_undercut: bool,
    pub suggested_update_price: Option<i64>,
}

/// Being cheaper by less than this many units (0.001 ISK) is no undercut.
pub const UNDERCUT_MARGIN: i64 = 10;

/// A sell order at the same station that is not ours (an order without an
/// ID is never ours).
pub open spec fn competes(o: PublicOrder, own_order_id: i64, location_id: i64) -> bool {
    &&& !o.is_buy_order
    &&& o.location_id == location_id
    &&& match o.order_id {
        Some(id) => id != own_order_id,
        None => true,
    }
}

/// The lowest price among the competing orders.
pub open spec fn spec_lowest_competing(orders: Seq<PublicOrder>, own_order_id: i64, location_id: i64) -> Option<i64>
    decreases orders.len(),
{
    if orders.len() == 0 {
        None
    } else {
        let rest = spec_lowest_competing(orders.drop_last(), own_order_id, location_id);
        let o = orders.last();
        if competes(o, own_order_id, location_id) {
            match rest {
                Some(m) => Some(if o.price < m { o.price } else { m }),
                None => Some(o.price),
            }
        } else {
            rest
        }
    }
}

/// How an order priced `own_price` stands against the competition.
pub open spec fn spec_order_check(orders: Seq<PublicOrder>, own_order_id: i64, location_id: i64, own_price: i64) -> OrderCheck {
    let lowest = spec_lowest_competing(orders, own_order_id, location_id);
    OrderCheck {
        lowest_competing_price: lowest,
        is_undercut: match lowest {
            Some(p) => p + UNDERCUT_MARGIN < own_price,
            None => false,
        },
        suggested_update_price: match lowest {
            Some(p) => Some(spec_previous_tick(p as int) as i64),
            None => None,
        },
    }
}

/// The lowest price of a sell order at `location_id` other than ours.
pub fn lowest_competing_price(orders: &Vec<PublicOrder>, own_order_id: i64, location_id: i64) -> (r: Option<i64>)
    ensures
        r == spec_lowest_competing(orders@, own_order_id, location_id),
{
    let mut lowest: Option<i64> = None;
    let mut i: usize = 0;
    while i < orders.len()
        invariant
            i <= orders.len(),
            lowest == spec_lowest_competing(orders@.take(i as int), own_order_id, location_id),
        decreases orders.len() - i,
    {
        let o = orders[i];
        assert(orders@.take(i + 1).drop_last() =~= orders@.take(i as int));
        assert(orders@.take(i + 1).last() == o);
        let ours = match o.order_id {
            Some(id) => id == own_order_id,
            None => false,
        };
        if !o.is_buy_order && o.location_id == location_id && !ours {
            lowest = match lowest {
                Some(m) => Some(if o.price < m { o.price } else { m }),
                None => Some(o.price),
            };
        }
        i = i + 1;
    }
    assert(orders@.take(orders.len() as int) =~= orders@);
    lowest
}

/// Checks our sell order `own_order_id`, priced `own_price`, at
/// `location_id` against the public orders: undercut when a competitor is
/// cheaper by more than the margin; the suggested price is the tick just
/// below the lowest competitor.
pub fn check_order(orders: &Vec<PublicOrder>, own_order_id: i64, location_id: i64, own_price: i64) -> (r: OrderCheck)
    ensures
        r == spec_order_check(orders@, own_order_id, location_id, own_price),
{
    let lowest = lowest_competing_price(orders, own_order_id, location_id);
    match lowest {
        Some(p) => OrderCheck {
            lowest_competing_price: lowest,
            is_undercut: (p as i128) + (UNDERCUT_MARGIN as i128) < own_price as i128,
            suggested_update_price: Some(previous_market_tick(p)),
        },
        None => OrderCheck { lowest_competing_price: None, is_undercut: false, suggested_update_price: None },
    }
}

proof fn lemma_lowest_competing_facts(os: Seq<PublicOrder>, own_order_id: i64, location_id: i64)
    ensures
        spec_lowest_competing(os, own_order_id, location_id) is None <==> forall|i: int|
            0 <= i < os.len() ==> !competes(#[trigger] os[i], own_order_id, location_id),
        spec_lowest_competing(os, own_order_id, location_id) matches Some(m) ==> {
            &&& forall|i: int| 0 <= i < os.len() && competes(#[trigger] os[i], own_order_id, location_id) ==> m <= os[i].price
            &&& exists|i: int| 0 <= i < os.len() && competes(#[trigger] os[i], own_order_id, location_id) && os[i].price == m
        },
    decreases os.len(),
{
    if os.len() > 0 {
        let init = os.drop_last();
        lemma_lowest_competing_facts(init, own_order_id, location_id);
        assert(forall|i: int| 0 <= i < init.len() ==> #[trigger] init[i] == os[i]);
        let last = os.len() - 1;
        assert(os[last] == os.last());
        match spec_lowest_competing(init, own_order_id, location_id) {
            Some(m0) => {
                let j = choose|i: int| 0 <= i < init.len() && competes(#[trigger] init[i], own_order_id, location_id) && init[i].price == m0;
                assert(competes(os[j], own_order_id, location_id));
            },
            None => {},
        }
        if spec_lowest_competing(os, own_order_id, location_id) is None {
            assert forall|i: int| 0 <= i < os.len() implies !competes(#[trigger] os[i], own_order_id, location_id) by {
                if i < last {
                    assert(init[i] == os[i]);
                }
            }
        }
        match spec_lowest_competing(os, own_order_id, location_id) {
            Some(m) => {
                assert forall|i: int| 0 <= i < os.len() && competes(#[trigger] os[i], own_order_id, location_id) implies m <= os[i].price by {
                    if i < last {
                        assert(init[i] == os[i]);
                    }
                }
            },
            None => {},
        }
    }
}

/// Our order counts as undercut exactly when some competing sell order at
/// its station is cheaper than it by more than the margin.
pub proof fn law_undercut_iff_cheaper_competitor(orders: Seq<PublicOrder>, own_order_id: i64, location_id: i64, own_price: i64)
    ensures
        spec_order_check(orders, own_order_id, location_id, own_price).is_undercut <==> exists|i: int|
            0 <= i < orders.len() && competes(#[trigger] orders[i], own_order_id, location_id)
                && orders[i].price + UNDERCUT_MARGIN < own_price,
{
    lemma_lowest_competing_facts(orders, own_order_id, location_id);
    if exists|i: int| 0 <= i < orders.len() && competes(#[trigger] orders[i], own_order_id, location_id)
        && orders[i].price + UNDERCUT_MARGIN < own_price {
        let i = choose|i: int| 0 <= i < orders.len() && competes(#[trigger] orders[i], own_order_id, location_id)
            && orders[i].price + UNDERCUT_MARGIN < own_price;
        assert(!(forall|k: int| 0 <= k < orders.len() ==> !competes(#[trigger] orders[k], own_order_id, location_id)));
    }
}

/// The suggested update price is a tick price strictly below the lowest
/// competitor, and no tick price a cent or more below the competitor is
/// higher (for a competitor above one cent).
pub proof fn law_suggested_price_is_best_below(orders: Seq<PublicOrder>, own_order_id: i64, location_id: i64, own_price: i64, q: int)
    requires
        spec_lowest_competing(orders, own_order_id, location_id) is Some,
        spec_lowest_competing(orders, own_order_id, location_id)->0 > CENT,
        is_tick_price(q),
        q <= spec_lowest_competing(orders, own_order_id, location_id)->0 - CENT,
    ensures
        ({
            let p = spec_lowest_competing(orders, own_order_id, location_id)->0;
            let s = spec_order_check(orders, own_order_id, location_id, own_price).suggested_update_price;
            &&& s matches Some(x) && x < p && is_tick_price(x as int) && q <= x
        }),
{
    let p = spec_lowest_competing(orders, own_order_id, location_id)->0;
    law_previous_tick_is_greatest_below(p as int, q);
}

} // verus!
