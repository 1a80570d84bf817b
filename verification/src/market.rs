//! Market depth and route analysis. Prices are in the fixed-point units of
//! `ticks` (1/10000 ISK); volumes and quantities are whole units.

use vstd::prelude::*;

verus! {

/// A public sell or buy order, as much of it as the analysis reads.
#[derive(Clone, Copy, Debug)]
pub struct MarketOrder {
    pub location_id: i64,
    pub price: i64,
    pub volume_remain: i64,
    pub is_buy_order: bool,
}

/// What one hub's sell book offers.
#[derive(Clone, Copy, Debug, PartialEq, Eq)]
pub struct HubPrices {
    pub lowest_sell: i64,
    pub reference_sell: i64,
    pub available_at_lowest: i128,
}

pub open spec fn is_station_sell(o: MarketOrder, station: i64) -> bool {
    !o.is_buy_order && o.location_id == station
}

pub open spec fn max0(x: int) -> int {
    if x > 0 {
        x
    } else {
        0
    }
}

/// The lowest price among the station's sell orders.
pub open spec fn min_sell(os: Seq<MarketOrder>, station: i64) -> Option<int>
    decreases os.len(),
{
    if os.len() == 0 {
        None
    } else {
        let rest = min_sell(os.drop_last(), station);
        let o = os.last();
        if is_station_sell(o, station) {
            match rest {
                None => Some(o.price as int),
                Some(m) => Some(if o.price < m {
                    o.price as int
                } else {
                    m
                }),
            }
        } else {
            rest
        }
    }
}

/// The highest price among the station's sell orders.
pub open spec fn max_sell(os: Seq<MarketOrder>, station: i64) -> Option<int>
    decreases os.len(),
{
    if os.len() == 0 {
        None
    } else {
        let rest = max_sell(os.drop_last(), station);
        let o = os.last();
        if is_station_sell(o, station) {
            match rest {
                None => Some(o.price as int),
                Some(m) => Some(if o.price > m {
                    o.price as int
                } else {
                    m
                }),
            }
        } else {
            rest
        }
    }
}

/// Units offered by the station's sell orders priced at or below `level`.
pub open spec fn units_at_or_below(os: Seq<MarketOrder>, station: i64, level: int) -> int
    decreases os.len(),
{
    if os.len() == 0 {
        0
    } else {
        let o = os.last();
        units_at_or_below(os.drop_last(), station, level) + if is_station_sell(o, station)
            && o.price <= level {
            max0(o.volume_remain as int)
        } else {
            0
        }
    }
}

/// ISK value (in price units) of the station's sell orders priced at or below `level`.
pub open spec fn value_at_or_below(os: Seq<MarketOrder>, station: i64, level: int) -> int
    decreases os.len(),
{
    if os.len() == 0 {
        0
    } else {
        let o = os.last();
        value_at_or_below(os.drop_last(), station, level) + if is_station_sell(o, station)
            && o.price <= level {
            max0(o.volume_remain as int) * max0(o.price as int)
        } else {
            0
        }
    }
}

/// Remaining volume, as listed, of the station's sell orders priced at or below `level`.
pub open spec fn listed_at_or_below(os: Seq<MarketOrder>, station: i64, level: int) -> int
    decreases os.len(),
{
    if os.len() == 0 {
        0
    } else {
        let o = os.last();
        listed_at_or_below(os.drop_last(), station, level) + if is_station_sell(o, station)
            && o.price <= level {
            o.volume_remain as int
        } else {
            0
        }
    }
}

/// The book is deep enough at `level`: enough units, or (when an ISK depth
/// is set) enough ISK, sit at or below it.
pub open spec fn depth_reached(
    os: Seq<MarketOrder>,
    station: i64,
    level: int,
    min_units: int,
    min_value: int,
) -> bool {
    units_at_or_below(os, station, level) >= min_units || (min_value > 0 && value_at_or_below(
        os,
        station,
        level,
    ) >= min_value)
}

/// The lowest price among the candidates' station sells at which the whole
/// book `all` is deep enough.
pub open spec fn first_deep_price(
    cands: Seq<MarketOrder>,
    all: Seq<MarketOrder>,
    station: i64,
    min_units: int,
    min_value: int,
) -> Option<int>
    decreases cands.len(),
{
    if cands.len() == 0 {
        None
    } else {
        let rest = first_deep_price(cands.drop_last(), all, station, min_units, min_value);
        let o = cands.last();
        if is_station_sell(o, station) && depth_reached(all, station, o.price as int, min_units, min_value) {
            match rest {
                None => Some(o.price as int),
                Some(m) => Some(if o.price < m {
                    o.price as int
                } else {
                    m
                }),
            }
        } else {
            rest
        }
    }
}

/// The sell book of one station: its lowest price, the reference price (the
/// cheapest price level at which the book reaches the wanted depth, or the
/// highest price when it never does), and the units listed at the lowest price.
/// A station without positive sell prices gives zeros.
pub open spec fn spec_hub_prices(
    os: Seq<MarketOrder>,
    station: i64,
    min_units: int,
    min_value: int,
) -> HubPrices {
    match min_sell(os, station) {
        None => HubPrices { lowest_sell: 0, reference_sell: 0, available_at_lowest: 0 },
        Some(low) => if low <= 0 {
            HubPrices { lowest_sell: 0, reference_sell: 0, available_at_lowest: 0 }
        } else {
            HubPrices {
                lowest_sell: low as i64,
                reference_sell: (match first_deep_price(os, os, station, min_units, min_value) {
                    Some(p) => p,
                    None => max_sell(os, station)->0,
                }) as i64,
                available_at_lowest: listed_at_or_below(os, station, low) as i128,
            }
        },
    }
}

proof fn lemma_min_sell_bounds(os: Seq<MarketOrder>, station: i64)
    ensures
        min_sell(os, station) matches Some(m) ==> i64::MIN <= m <= i64::MAX,
        max_sell(os, station) matches Some(m) ==> i64::MIN <= m <= i64::MAX,
        min_sell(os, station) is Some <==> max_sell(os, station) is Some,
    decreases os.len(),
{
    if os.len() > 0 {
        lemma_min_sell_bounds(os.drop_last(), station);
    }
}

proof fn lemma_units_nonneg(os: Seq<MarketOrder>, station: i64, level: int)
    ensures
        units_at_or_below(os, station, level) >= 0,
        value_at_or_below(os, station, level) >= 0,
    decreases os.len(),
{
    if os.len() > 0 {
        lemma_units_nonneg(os.drop_last(), station, level);
        let o = os.last();
        let v = max0(o.volume_remain as int);
        let p = max0(o.price as int);
        assert(v * p >= 0) by (nonlinear_arith)
            requires
                v >= 0,
                p >= 0,
        ;
    }
}

proof fn lemma_deep_price_is_sell(cands: Seq<MarketOrder>, all: Seq<MarketOrder>, station: i64, mu: int, mv: int)
    ensures
        first_deep_price(cands, all, station, mu, mv) matches Some(p) ==> i64::MIN <= p <= i64::MAX,
    decreases cands.len(),
{
    if cands.len() > 0 {
        lemma_deep_price_is_sell(cands.drop_last(), all, station, mu, mv);
    }
}

proof fn lemma_deep_price_at_least_min(cands: Seq<MarketOrder>, all: Seq<MarketOrder>, station: i64, mu: int, mv: int)
    ensures
        first_deep_price(cands, all, station, mu, mv) matches Some(p) ==> (min_sell(cands, station) matches Some(m) && p >= m),
    decreases cands.len(),
{
    if cands.len() > 0 {
        lemma_deep_price_at_least_min(cands.drop_last(), all, station, mu, mv);
    }
}

proof fn lemma_max_at_least_min(os: Seq<MarketOrder>, station: i64)
    ensures
        max_sell(os, station) matches Some(hi) ==> (min_sell(os, station) matches Some(lo) && lo <= hi),
    decreases os.len(),
{
    if os.len() > 0 {
        lemma_max_at_least_min(os.drop_last(), station);
    }
}

/// The depth-adjusted reference price of a hub is never below its lowest sell price.
pub proof fn law_reference_not_below_lowest(os: Seq<MarketOrder>, station: i64, min_units: int, min_value: int)
    ensures
        spec_hub_prices(os, station, min_units, min_value).reference_sell
            >= spec_hub_prices(os, station, min_units, min_value).lowest_sell,
{
    lemma_deep_price_at_least_min(os, os, station, min_units, min_value);
    lemma_max_at_least_min(os, station);
    lemma_min_sell_bounds(os, station);
    lemma_deep_price_is_sell(os, os, station, min_units, min_value);
}

/// Cap used while summing depth: any threshold of the analysis is below it.
pub const DEPTH_CAP: i128 = 0x8000_0000_0000_0000;

pub open spec fn capped(x: int) -> int {
    if x > DEPTH_CAP {
        DEPTH_CAP as int
    } else {
        x
    }
}

/// Units and ISK value at or below `level`, each capped at `DEPTH_CAP`.
fn depth_at(orders: &Vec<MarketOrder>, station: i64, level: i64) -> (r: (i128, i128))
    ensures
        r.0 == capped(units_at_or_below(orders@, station, level as int)),
        r.1 == capped(value_at_or_below(orders@, station, level as int)),
{
    let mut units: i128 = 0;
    let mut value: i128 = 0;
    let mut i: usize = 0;
    while i < orders.len()
        invariant
            i <= orders.len(),
            0 <= units <= DEPTH_CAP,
            0 <= value <= DEPTH_CAP,
            units == capped(units_at_or_below(orders@.take(i as int), station, level as int)),
            value == capped(value_at_or_below(orders@.take(i as int), station, level as int)),
        decreases orders.len() - i,
    {
        let o = orders[i];
        let ghost pre = orders@.take(i as int);
        assert(orders@.take(i + 1).drop_last() =~= pre);
        assert(orders@.take(i + 1).last() == o);
        proof {
            lemma_units_nonneg(pre, station, level as int);
        }
        if !o.is_buy_order && o.location_id == station && o.price <= level {
            let v: i128 = if o.volume_remain > 0 {
                o.volume_remain as i128
            } else {
                0
            };
            let p: i128 = if o.price > 0 {
                o.price as i128
            } else {
                0
            };
            assert(0 <= v * p <= 0x4000_0000_0000_0000_0000_0000_0000_0000) by (nonlinear_arith)
                requires
                    0 <= v <= 0x8000_0000_0000_0000,
                    0 <= p <= 0x8000_0000_0000_0000,
            ;
            let u2 = units + v;
            units = if u2 > DEPTH_CAP {
                DEPTH_CAP
            } else {
                u2
            };
            let w2 = value + v * p;
            value = if w2 > DEPTH_CAP {
                DEPTH_CAP
            } else {
                w2
            };
        }
        i = i + 1;
    }
    assert(orders@.take(orders.len() as int) =~= orders@);
    (units, value)
}

/// Lowest price, depth-adjusted reference price and units at the lowest price
/// of one station's sell book. `min_units` and `min_value` are the wanted
/// depth in units and in ISK (price units); a `min_value` of zero or less
/// leaves the ISK test out.
pub fn hub_prices(orders: &Vec<MarketOrder>, station: i64, min_units: i64, min_value: i64) -> (r: HubPrices)
    ensures
        r == spec_hub_prices(orders@, station, min_units as int, min_value as int),
{
    let n = orders.len();
    // lowest and highest station sell prices
    let mut lowest: Option<i64> = None;
    let mut highest: Option<i64> = None;
    let mut i: usize = 0;
    while i < n
        invariant
            n == orders.len(),
            i <= n,
            lowest == (match min_sell(orders@.take(i as int), station) {
                Some(m) => Some(m as i64),
                None => None::<i64>,
            }),
            highest == (match max_sell(orders@.take(i as int), station) {
                Some(m) => Some(m as i64),
                None => None::<i64>,
            }),
        decreases n - i,
    {
        let o = orders[i];
        assert(orders@.take(i + 1).drop_last() =~= orders@.take(i as int));
        assert(orders@.take(i + 1).last() == o);
        proof {
            lemma_min_sell_bounds(orders@.take(i as int), station);
        }
        if !o.is_buy_order && o.location_id == station {
            lowest = match lowest {
                None => Some(o.price),
                Some(m) => Some(if o.price < m { o.price } else { m }),
            };
            highest = match highest {
                None => Some(o.price),
                Some(m) => Some(if o.price > m { o.price } else { m }),
            };
        }
        i = i + 1;
    }
    assert(orders@.take(n as int) =~= orders@);
    proof {
        lemma_min_sell_bounds(orders@, station);
    }
    let low = match lowest {
        None => {
            return HubPrices { lowest_sell: 0, reference_sell: 0, available_at_lowest: 0 };
        },
        Some(m) => m,
    };
    if low <= 0 {
        return HubPrices { lowest_sell: 0, reference_sell: 0, available_at_lowest: 0 };
    }
    // units listed at the lowest price
    let mut available: i128 = 0;
    let mut k: usize = 0;
    while k < n
        invariant
            n == orders.len(),
            k <= n,
            available == listed_at_or_below(orders@.take(k as int), station, low as int),
            -(k as int) * 0x8000_0000_0000_0000 <= available <= (k as int) * 0x8000_0000_0000_0000,
        decreases n - k,
    {
        let o = orders[k];
        assert(orders@.take(k + 1).drop_last() =~= orders@.take(k as int));
        assert(orders@.take(k + 1).last() == o);
        assert((k as int) * 0x8000_0000_0000_0000 + 0x8000_0000_0000_0000 == (k + 1) as int * 0x8000_0000_0000_0000);
        assert((k + 1) as int * 0x8000_0000_0000_0000 <= 0xffff_ffff_ffff_ffff * 0x8000_0000_0000_0000int) by (nonlinear_arith)
            requires
                k + 1 <= 0xffff_ffff_ffff_ffff,
        ;
        if !o.is_buy_order && o.location_id == station && o.price <= low {
            available = available + o.volume_remain as i128;
        }
        k = k + 1;
    }
    assert(orders@.take(n as int) =~= orders@);
    // cheapest price level at which the book is deep enough
    let mut best: Option<i64> = None;
    let mut j: usize = 0;
    while j < n
        invariant
            n == orders.len(),
            j <= n,
            best == (match first_deep_price(orders@.take(j as int), orders@, station, min_units as int, min_value as int) {
                Some(p) => Some(p as i64),
                None => None::<i64>,
            }),
        decreases n - j,
    {
        let o = orders[j];
        assert(orders@.take(j + 1).drop_last() =~= orders@.take(j as int));
        assert(orders@.take(j + 1).last() == o);
        proof {
            lemma_deep_price_is_sell(orders@.take(j as int), orders@, station, min_units as int, min_value as int);
        }
        if !o.is_buy_order && o.location_id == station {
            let (units, value) = depth_at(orders, station, o.price);
            if units >= min_units as i128 || (min_value > 0 && value >= min_value as i128) {
                best = match best {
                    None => Some(o.price),
                    Some(m) => Some(if o.price < m { o.price } else { m }),
                };
            }
        }
        j = j + 1;
    }
    assert(orders@.take(n as int) =~= orders@);
    let reference = match best {
        Some(p) => p,
        None => match highest {
            Some(h) => h,
            None => low,
        },
    };
    HubPrices { lowest_sell: low, reference_sell: reference, available_at_lowest: available }
}

/// One hub's market for an item: its sell book summary and its recent
/// regional traded volume.
#[derive(Clone, Copy, Debug, PartialEq, Eq)]
pub struct HubMarket {
    pub hub_id: i64,
    pub prices: HubPrices,
    pub volume: i64,
}

/// Thresholds and capacities the analysis uses. Shares are in basis points
/// (1/10000); `cargo_capacity` and `item_volume` share one fixed-point unit
/// of volume; `min_profit` is in price units.
#[derive(Clone, Copy, Debug, PartialEq, Eq)]
pub struct AnalysisSettings {
    pub min_spread_bp: i64,
    pub min_profit: i64,
    pub destination_volume_bp: i64,
    pub min_source_volume: i64,
    pub min_destination_volume: i64,
    pub cargo_capacity: i64,
    pub item_volume: Option<i64>,
}

/// How a route is judged.
#[derive(Clone, Copy, Debug, PartialEq, Eq)]
pub enum RouteStatus {
    NoSpread,
    LowSpread,
    LowProfit,
    LowTraffic,
    Good,
}

/// The chosen route between two hubs and what it is worth.
#[derive(Clone, Copy, Debug, PartialEq, Eq)]
pub struct RoutePlan {
    pub buy: usize,
    pub sell: usize,
    pub buy_price: i64,
    pub sell_reference: i64,
    pub destination_lowest_sell: i64,
    pub profit_per_unit: i128,
    pub source_available: i128,
    pub buy_volume: i64,
    pub sell_volume: i64,
    pub cargo_units: Option<i64>,
    pub suggested_buy_quantity: i128,
    pub estimated_profit: i128,
    pub status: RouteStatus,
}

/// Outcome of analysing an item over the enabled hubs.
#[derive(Clone, Copy, Debug, PartialEq, Eq)]
pub enum Analysis {
    /// No hub has a positive sell price.
    NoSellOrders,
    /// Only one hub has sell orders; its volume is reported.
    OneHub { volume: i64 },
    Route(RoutePlan),
}

pub open spec fn hub_available(m: Seq<HubMarket>, i: int) -> bool {
    0 <= i < m.len() && m[i].prices.lowest_sell > 0
}

pub open spec fn valid_route(m: Seq<HubMarket>, b: int, s: int) -> bool {
    hub_available(m, b) && hub_available(m, s) && m[b].hub_id != m[s].hub_id
}

/// Profit per unit of buying at the lowest sell of `b` and selling at the reference of `s`.
pub open spec fn route_profit(m: Seq<HubMarket>, b: int, s: int) -> int {
    m[s].prices.reference_sell - m[b].prices.lowest_sell
}

/// `(b2, s2)` comes before `(b, s)` when routes are tried buy hub first.
pub open spec fn route_before(b2: int, s2: int, b: int, s: int) -> bool {
    b2 < b || (b2 == b && s2 < s)
}

/// `(b, s)` is the most profitable route, and the first tried among equals.
pub open spec fn is_best_route(m: Seq<HubMarket>, b: int, s: int) -> bool {
    &&& valid_route(m, b, s)
    &&& forall|b2: int, s2: int|
        #[trigger] valid_route(m, b2, s2) ==> route_profit(m, b2, s2) <= route_profit(m, b, s)
    &&& forall|b2: int, s2: int|
        #[trigger] valid_route(m, b2, s2) && route_before(b2, s2, b, s) ==> route_profit(m, b2, s2)
            < route_profit(m, b, s)
}

/// Number of hubs with a positive sell price.
pub open spec fn count_available(m: Seq<HubMarket>) -> nat
    decreases m.len(),
{
    if m.len() == 0 {
        0
    } else {
        count_available(m.drop_last()) + if m.last().prices.lowest_sell > 0 {
            1nat
        } else {
            0nat
        }
    }
}

/// Index of the first hub with a positive sell price.
pub open spec fn first_available(m: Seq<HubMarket>) -> int
    decreases m.len(),
{
    if m.len() == 0 {
        0
    } else if count_available(m.drop_last()) > 0 {
        first_available(m.drop_last())
    } else {
        m.len() - 1
    }
}

/// Units of an item the cargo hold takes, when both volumes are known and positive.
pub open spec fn spec_cargo_units(cargo: int, item_volume: Option<i64>) -> Option<int> {
    match item_volume {
        None => None,
        Some(v) => if cargo <= 0 || v <= 0 {
            None
        } else {
            Some(cargo / (v as int))
        },
    }
}

pub open spec fn clamp_bp(x: int) -> int {
    if x < 0 {
        0
    } else if x > 10000 {
        10000
    } else {
        x
    }
}

/// The share of destination volume a purchase may reach, rounded down.
pub open spec fn spec_destination_units(sell_volume: int, share_bp: int) -> int {
    let bp = clamp_bp(share_bp);
    if bp > 0 {
        (sell_volume * bp) / 10000
    } else {
        0
    }
}

pub open spec fn min_int(a: int, b: int) -> int {
    if a < b {
        a
    } else {
        b
    }
}

/// Units to buy: what the source offers, capped by cargo room and by the
/// destination share, never negative.
pub open spec fn spec_suggested_quantity(source: int, cargo_units: Option<int>, destination_units: Option<int>) -> int {
    let q0 = max0(source);
    let q1 = match cargo_units {
        Some(u) => min_int(q0, max0(u)),
        None => q0,
    };
    match destination_units {
        Some(u) => min_int(q1, max0(u)),
        None => q1,
    }
}

pub open spec fn spec_route_status(
    profit: int,
    buy_price: int,
    estimated: int,
    buy_volume: int,
    sell_volume: int,
    cfg: AnalysisSettings,
) -> RouteStatus {
    if profit <= 0 {
        RouteStatus::NoSpread
    } else if profit * 10000 < cfg.min_spread_bp * buy_price {
        RouteStatus::LowSpread
    } else if estimated < cfg.min_profit {
        RouteStatus::LowProfit
    } else if buy_volume < cfg.min_source_volume || sell_volume < cfg.min_destination_volume {
        RouteStatus::LowTraffic
    } else {
        RouteStatus::Good
    }
}

/// The plan for buying at hub `b` and selling at hub `s`.
pub open spec fn spec_route_plan(m: Seq<HubMarket>, b: int, s: int, cfg: AnalysisSettings) -> RoutePlan {
    let buy = m[b];
    let sell = m[s];
    let profit = route_profit(m, b, s);
    let cargo = spec_cargo_units(cfg.cargo_capacity as int, cfg.item_volume);
    let dest = spec_destination_units(sell.volume as int, cfg.destination_volume_bp as int);
    let qty = spec_suggested_quantity(buy.prices.available_at_lowest as int, cargo, Some(dest));
    let est = max0(qty * profit);
    RoutePlan {
        buy: b as usize,
        sell: s as usize,
        buy_price: buy.prices.lowest_sell,
        sell_reference: sell.prices.reference_sell,
        destination_lowest_sell: sell.prices.lowest_sell,
        profit_per_unit: profit as i128,
        source_available: buy.prices.available_at_lowest,
        buy_volume: buy.volume,
        sell_volume: sell.volume,
        cargo_units: match cargo {
            Some(u) => Some(u as i64),
            None => None,
        },
        suggested_buy_quantity: qty as i128,
        estimated_profit: est as i128,
        status: spec_route_status(profit, buy.prices.lowest_sell as int, est, buy.volume as int, sell.volume as int, cfg),
    }
}

/// Whole units of an item that fit in the cargo hold.
pub fn cargo_unit_capacity(cargo: i64, item_volume: Option<i64>) -> (r: Option<i64>)
    ensures
        r matches Some(u) ==> spec_cargo_units(cargo as int, item_volume) == Some(u as int),
        r is None <==> spec_cargo_units(cargo as int, item_volume) is None,
{
    match item_volume {
        None => None,
        Some(v) => {
            if cargo <= 0 || v <= 0 {
                None
            } else {
                Some(cargo / v)
            }
        },
    }
}

/// Floor of `sell_volume * share / 10000` for the share clamped to `[0, 10000]`.
pub fn destination_units(sell_volume: i64, share_bp: i64) -> (r: i64)
    ensures
        r == spec_destination_units(sell_volume as int, share_bp as int),
{
    let bp: i64 = if share_bp < 0 {
        0
    } else if share_bp > 10000 {
        10000
    } else {
        share_bp
    };
    if bp == 0 {
        return 0;
    }
    assert(-0x8000_0000_0000_0000 * 10000 <= sell_volume as int * bp as int <= 0x8000_0000_0000_0000 * 10000) by (nonlinear_arith)
        requires
            0 < bp <= 10000,
            -0x8000_0000_0000_0000 <= sell_volume < 0x8000_0000_0000_0000,
    ;
    let x: i128 = sell_volume as i128 * bp as i128;
    let q: i128 = if x >= 0 {
        x / 10000
    } else {
        let y = (-x + 9999) / 10000;
        -y
    };
    proof {
        if x < 0 {
            let y = (-x + 9999) / 10000;
            vstd::arithmetic::div_mod::lemma_fundamental_div_mod(-x + 9999, 10000);
            vstd::arithmetic::div_mod::lemma_fundamental_div_mod(x as int, 10000);
            assert(q == (x as int) / 10000);
        }
        assert((sell_volume as int * bp as int) / 10000 >= sell_volume as int * bp as int / 10000);
    }
    assert(-0x8000_0000_0000_0000 <= q <= 0x7fff_ffff_ffff_ffff) by (nonlinear_arith)
        requires
            q == (sell_volume as int * bp as int) / 10000,
            0 < bp <= 10000,
            -0x8000_0000_0000_0000 <= sell_volume < 0x8000_0000_0000_0000,
    ;
    q as i64
}

/// Units to buy, capped by source units, cargo room and destination share.
pub fn suggested_buy_quantity(source_available: i128, cargo_units: Option<i64>, destination_units: Option<i64>) -> (q: i128)
    ensures
        q == spec_suggested_quantity(
            source_available as int,
            match cargo_units {
                Some(u) => Some(u as int),
                None => None,
            },
            match destination_units {
                Some(u) => Some(u as int),
                None => None,
            },
        ),
{
    let mut q: i128 = if source_available > 0 {
        source_available
    } else {
        0
    };
    if let Some(u) = cargo_units {
        let u0: i128 = if u > 0 {
            u as i128
        } else {
            0
        };
        if u0 < q {
            q = u0;
        }
    }
    if let Some(u) = destination_units {
        let u0: i128 = if u > 0 {
            u as i128
        } else {
            0
        };
        if u0 < q {
            q = u0;
        }
    }
    q
}

/// Judges a route by its profit, spread, estimated profit and traffic.
pub fn route_status(
    profit: i128,
    buy_price: i64,
    estimated: i128,
    buy_volume: i64,
    sell_volume: i64,
    cfg: &AnalysisSettings,
) -> (r: RouteStatus)
    requires
        -0x1_0000_0000_0000_0000 <= profit <= 0x1_0000_0000_0000_0000,
    ensures
        r == spec_route_status(profit as int, buy_price as int, estimated as int, buy_volume as int, sell_volume as int, *cfg),
{
    assert(-0x4000_0000_0000_0000_0000_0000_0000_0000 <= cfg.min_spread_bp as int * buy_price as int
        <= 0x4000_0000_0000_0000_0000_0000_0000_0000) by (nonlinear_arith)
        requires
            -0x8000_0000_0000_0000 <= cfg.min_spread_bp < 0x8000_0000_0000_0000,
            -0x8000_0000_0000_0000 <= buy_price < 0x8000_0000_0000_0000,
    ;
    if profit <= 0 {
        RouteStatus::NoSpread
    } else if profit * 10000 < cfg.min_spread_bp as i128 * buy_price as i128 {
        RouteStatus::LowSpread
    } else if estimated < cfg.min_profit as i128 {
        RouteStatus::LowProfit
    } else if buy_volume < cfg.min_source_volume || sell_volume < cfg.min_destination_volume {
        RouteStatus::LowTraffic
    } else {
        RouteStatus::Good
    }
}

proof fn lemma_count_available_facts(m: Seq<HubMarket>)
    ensures
        count_available(m) <= m.len(),
        count_available(m) == 0 ==> forall|i: int| !hub_available(m, i),
        count_available(m) > 0 ==> hub_available(m, first_available(m)),
        count_available(m) > 0 ==> forall|i: int| 0 <= i < first_available(m) ==> !hub_available(m, i),
        count_available(m) == 1 ==> forall|i: int| hub_available(m, i) ==> i == first_available(m),
        count_available(m) >= 2 ==> exists|i: int| hub_available(m, i) && i != first_available(m),
    decreases m.len(),
{
    if m.len() > 0 {
        let p = m.drop_last();
        lemma_count_available_facts(p);
        assert forall|i: int| 0 <= i < p.len() implies hub_available(p, i) == hub_available(m, i) by {}
        if count_available(p) >= 2 {
            let w = choose|i: int| hub_available(p, i) && i != first_available(p);
            assert(hub_available(m, w));
        }
        if count_available(p) == 1 && count_available(m) == 2 {
            assert(hub_available(m, m.len() - 1));
        }
        if count_available(p) == 0 {
            assert forall|i: int| 0 <= i < first_available(m) implies !hub_available(m, i) by {
                assert(!hub_available(p, i));
            }
        }
        assert forall|i: int| hub_available(m, i) && count_available(m) == 1 implies i == first_available(m) by {
            if i < p.len() {
                assert(hub_available(p, i));
            }
        }
        assert forall|i: int| count_available(m) == 0 implies !hub_available(m, i) by {
            if 0 <= i < p.len() {
                assert(!hub_available(p, i));
            }
        }
    }
}

/// Picks the most profitable route between two different hubs with sell
/// orders, the first tried among equals; `None` when there is no such pair.
pub fn best_route(markets: &Vec<HubMarket>) -> (r: Option<(usize, usize)>)
    ensures
        r matches Some(p) ==> is_best_route(markets@, p.0 as int, p.1 as int),
        r is None ==> forall|b: int, s: int| !valid_route(markets@, b, s),
{
    let n = markets.len();
    let mut best: Option<(usize, usize, i128)> = None;
    let mut i: usize = 0;
    while i < n
        invariant
            n == markets.len(),
            i <= n,
            best matches None ==> forall|b2: int, s2: int|
                #[trigger] valid_route(markets@, b2, s2) && b2 < i ==> false,
            best matches Some(t) ==> {
                &&& valid_route(markets@, t.0 as int, t.1 as int)
                &&& t.0 < i
                &&& t.2 == route_profit(markets@, t.0 as int, t.1 as int)
                &&& forall|b2: int, s2: int|
                    #[trigger] valid_route(markets@, b2, s2) && b2 < i ==> route_profit(markets@, b2, s2) <= t.2
                &&& forall|b2: int, s2: int|
                    #[trigger] valid_route(markets@, b2, s2) && b2 < i && route_before(b2, s2, t.0 as int, t.1 as int)
                        ==> route_profit(markets@, b2, s2) < t.2
            },
        decreases n - i,
    {
        let mut j: usize = 0;
        while j < n
            invariant
                n == markets.len(),
                i < n,
                j <= n,
                best matches None ==> forall|b2: int, s2: int|
                    #[trigger] valid_route(markets@, b2, s2) && route_before(b2, s2, i as int, j as int) ==> false,
                best matches Some(t) ==> {
                    &&& valid_route(markets@, t.0 as int, t.1 as int)
                    &&& route_before(t.0 as int, t.1 as int, i as int, j as int)
                    &&& t.2 == route_profit(markets@, t.0 as int, t.1 as int)
                    &&& forall|b2: int, s2: int|
                        #[trigger] valid_route(markets@, b2, s2) && route_before(b2, s2, i as int, j as int)
                            ==> route_profit(markets@, b2, s2) <= t.2
                    &&& forall|b2: int, s2: int|
                        #[trigger] valid_route(markets@, b2, s2) && route_before(b2, s2, i as int, j as int)
                            && route_before(b2, s2, t.0 as int, t.1 as int) ==> route_profit(markets@, b2, s2) < t.2
                },
            decreases n - j,
        {
            let b = markets[i];
            let s = markets[j];
            if b.prices.lowest_sell > 0 && s.prices.lowest_sell > 0 && b.hub_id != s.hub_id {
                let profit: i128 = s.prices.reference_sell as i128 - b.prices.lowest_sell as i128;
                let take = match best {
                    None => true,
                    Some(t) => profit > t.2,
                };
                if take {
                    best = Some((i, j, profit));
                }
            }
            j = j + 1;
        }
        i = i + 1;
    }
    match best {
        None => None,
        Some(t) => Some((t.0, t.1)),
    }
}

/// Analyses an item over the hubs' markets: no sell orders, a single hub, or
/// the best route with its quantities, estimated profit and status.
pub fn analyze_markets(markets: &Vec<HubMarket>, cfg: &AnalysisSettings) -> (r: Analysis)
    requires
        count_available(markets@) >= 2 ==> exists|b: int, s: int| valid_route(markets@, b, s),
    ensures
        count_available(markets@) == 0 <==> r == Analysis::NoSellOrders,
        count_available(markets@) == 1 <==> r == (Analysis::OneHub {
            volume: markets@[first_available(markets@)].volume,
        }),
        count_available(markets@) >= 2 <==> r is Route,
        r matches Analysis::Route(plan) ==> is_best_route(markets@, plan.buy as int, plan.sell as int)
            && plan == spec_route_plan(markets@, plan.buy as int, plan.sell as int, *cfg),
{
    proof {
        lemma_count_available_facts(markets@);
    }
    let n = markets.len();
    let mut count: usize = 0;
    let mut first: usize = 0;
    let mut i: usize = 0;
    while i < n
        invariant
            n == markets.len(),
            i <= n,
            count == count_available(markets@.take(i as int)),
            count <= i,
            count > 0 ==> first == first_available(markets@.take(i as int)),
        decreases n - i,
    {
        assert(markets@.take(i + 1).drop_last() =~= markets@.take(i as int));
        if markets[i].prices.lowest_sell > 0 {
            if count == 0 {
                first = i;
            }
            count = count + 1;
        }
        i = i + 1;
    }
    assert(markets@.take(n as int) =~= markets@);
    if count == 0 {
        return Analysis::NoSellOrders;
    }
    if count == 1 {
        return Analysis::OneHub { volume: markets[first].volume };
    }
    let (b, s) = match best_route(markets) {
        Some(p) => p,
        None => {
            proof {
                let (b0, s0) = choose|b: int, s: int| valid_route(markets@, b, s);
                assert(valid_route(markets@, b0, s0));
            }
            return Analysis::NoSellOrders;
        },
    };
    let buy = markets[b];
    let sell = markets[s];
    let profit: i128 = sell.prices.reference_sell as i128 - buy.prices.lowest_sell as i128;
    let cargo = cargo_unit_capacity(cfg.cargo_capacity, cfg.item_volume);
    let dest = destination_units(sell.volume, cfg.destination_volume_bp);
    let qty = suggested_buy_quantity(buy.prices.available_at_lowest, cargo, Some(dest));
    assert(0 <= qty <= 0x7fff_ffff_ffff_ffff);
    assert(-0x7fff_ffff_ffff_ffff * 0x1_0000_0000_0000_0000 <= qty * profit <= 0x7fff_ffff_ffff_ffff * 0x1_0000_0000_0000_0000) by (nonlinear_arith)
        requires
            0 <= qty <= 0x7fff_ffff_ffff_ffff,
            -0x1_0000_0000_0000_0000 <= profit <= 0x1_0000_0000_0000_0000,
    ;
    let gross = qty * profit;
    let estimated: i128 = if gross > 0 {
        gross
    } else {
        0
    };
    let status = route_status(profit, buy.prices.lowest_sell, estimated, buy.volume, sell.volume, cfg);
    Analysis::Route(RoutePlan {
        buy: b,
        sell: s,
        buy_price: buy.prices.lowest_sell,
        sell_reference: sell.prices.reference_sell,
        destination_lowest_sell: sell.prices.lowest_sell,
        profit_per_unit: profit,
        source_available: buy.prices.available_at_lowest,
        buy_volume: buy.volume,
        sell_volume: sell.volume,
        cargo_units: cargo,
        suggested_buy_quantity: qty,
        estimated_profit: estimated,
        status,
    })
}

/// The suggested quantity of a route never exceeds what the source hub
/// offers at its lowest price, the cargo room, or the destination share, and
/// is never negative; the estimated profit is never negative either.
pub proof fn law_route_quantity_within_caps(m: Seq<HubMarket>, b: int, s: int, cfg: AnalysisSettings)
    ensures
        ({
            let plan = spec_route_plan(m, b, s, cfg);
            &&& 0 <= plan.suggested_buy_quantity <= max0(plan.source_available as int)
            &&& (plan.cargo_units matches Some(u) ==> plan.suggested_buy_quantity <= u)
            &&& plan.suggested_buy_quantity <= max0(spec_destination_units(m[s].volume as int, cfg.destination_volume_bp as int))
            &&& plan.estimated_profit >= 0
        }),
{
    let v = m[s].volume as int;
    let bp = clamp_bp(cfg.destination_volume_bp as int);
    let dest = spec_destination_units(v, cfg.destination_volume_bp as int);
    if bp > 0 {
        assert(v * bp / 10000 <= max0(v)) by (nonlinear_arith)
            requires
                0 < bp <= 10000,
        {
            if v >= 0 {
                assert(v * bp <= v * 10000);
            } else {
                assert(v * bp < 0);
            }
        }
    }
    assert(dest <= 0x7fff_ffff_ffff_ffff);
    let cargo = spec_cargo_units(cfg.cargo_capacity as int, cfg.item_volume);
    let qty = spec_suggested_quantity(m[b].prices.available_at_lowest as int, cargo, Some(dest));
    let profit = route_profit(m, b, s);
    assert(0 <= qty <= 0x7fff_ffff_ffff_ffff);
    assert(-0x1_0000_0000_0000_0000 <= profit <= 0x1_0000_0000_0000_0000);
    assert(max0(qty * profit) < 0x8000_0000_0000_0000_0000_0000_0000_0000) by (nonlinear_arith)
        requires
            0 <= qty <= 0x7fff_ffff_ffff_ffff,
            -0x1_0000_0000_0000_0000 <= profit <= 0x1_0000_0000_0000_0000,
    {
        if qty * profit > 0 {
            assert(qty * profit <= qty * 0x1_0000_0000_0000_0000);
            assert(qty * 0x1_0000_0000_0000_0000 <= 0x7fff_ffff_ffff_ffff * 0x1_0000_0000_0000_0000);
        }
    }
}

/// The sell orders of a station, in order.
pub open spec fn sells_at(os: Seq<MarketOrder>, station: i64) -> Seq<MarketOrder>
    decreases os.len(),
{
    if os.len() == 0 {
        Seq::empty()
    } else {
        let rest = sells_at(os.drop_last(), station);
        let o = os.last();
        if !o.is_buy_order && o.location_id == station {
            rest.push(o)
        } else {
            rest
        }
    }
}

proof fn lemma_sells_at_same_book(os: Seq<MarketOrder>, station: i64, level: int)
    ensures
        min_sell(sells_at(os, station), station) == min_sell(os, station),
        max_sell(sells_at(os, station), station) == max_sell(os, station),
        units_at_or_below(sells_at(os, station), station, level) == units_at_or_below(os, station, level),
        value_at_or_below(sells_at(os, station), station, level) == value_at_or_below(os, station, level),
        listed_at_or_below(sells_at(os, station), station, level) == listed_at_or_below(os, station, level),
    decreases os.len(),
{
    if os.len() > 0 {
        lemma_sells_at_same_book(os.drop_last(), station, level);
        let o = os.last();
        if !o.is_buy_order && o.location_id == station {
            let r = sells_at(os.drop_last(), station);
            assert(r.push(o).drop_last() =~= r);
        }
    }
}

proof fn lemma_deep_price_same_depth(cands: Seq<MarketOrder>, a1: Seq<MarketOrder>, a2: Seq<MarketOrder>, station: i64, mu: int, mv: int)
    requires
        forall|level: int| #[trigger] depth_reached(a1, station, level, mu, mv) == depth_reached(a2, station, level, mu, mv),
    ensures
        first_deep_price(cands, a1, station, mu, mv) == first_deep_price(cands, a2, station, mu, mv),
    decreases cands.len(),
{
    if cands.len() > 0 {
        lemma_deep_price_same_depth(cands.drop_last(), a1, a2, station, mu, mv);
        assert(depth_reached(a1, station, cands.last().price as int, mu, mv) == depth_reached(a2, station, cands.last().price as int, mu, mv));
    }
}

proof fn lemma_deep_price_over_sells(cands: Seq<MarketOrder>, all: Seq<MarketOrder>, station: i64, mu: int, mv: int)
    ensures
        first_deep_price(sells_at(cands, station), all, station, mu, mv) == first_deep_price(cands, all, station, mu, mv),
    decreases cands.len(),
{
    if cands.len() > 0 {
        lemma_deep_price_over_sells(cands.drop_last(), all, station, mu, mv);
        let o = cands.last();
        if !o.is_buy_order && o.location_id == station {
            let r = sells_at(cands.drop_last(), station);
            assert(r.push(o).drop_last() =~= r);
        }
    }
}

/// A hub's prices depend only on the station's sell orders: buy orders and
/// orders at other stations add no units, no value and no price.
pub proof fn law_hub_prices_read_only_station_sells(os: Seq<MarketOrder>, station: i64, min_units: int, min_value: int)
    ensures
        spec_hub_prices(os, station, min_units, min_value) == spec_hub_prices(sells_at(os, station), station, min_units, min_value),
{
    let ss = sells_at(os, station);
    assert forall|level: int| #[trigger] depth_reached(ss, station, level, min_units, min_value)
        == depth_reached(os, station, level, min_units, min_value) by {
        lemma_sells_at_same_book(os, station, level);
    }
    lemma_sells_at_same_book(os, station, 0);
    lemma_deep_price_same_depth(ss, ss, os, station, min_units, min_value);
    lemma_deep_price_over_sells(os, os, station, min_units, min_value);
    match min_sell(os, station) {
        Some(low) => {
            lemma_sells_at_same_book(os, station, low);
        },
        None => {},
    }
}

/// Adding a buy order, or an order at another station, leaves a hub's prices as they are.
pub proof fn law_other_orders_leave_hub_prices(os: Seq<MarketOrder>, o: MarketOrder, station: i64, min_units: int, min_value: int)
    requires
        o.is_buy_order || o.location_id != station,
    ensures
        spec_hub_prices(os.push(o), station, min_units, min_value) == spec_hub_prices(os, station, min_units, min_value),
{
    law_hub_prices_read_only_station_sells(os.push(o), station, min_units, min_value);
    law_hub_prices_read_only_station_sells(os, station, min_units, min_value);
    assert(os.push(o).drop_last() =~= os);
}

/// A route's status: no spread without positive profit; then low spread when
/// profit is under the minimum share of the buy price; then low profit when
/// the estimate is under the minimum; then low traffic when the buy hub
/// trades under the source minimum or the sell hub under the destination
/// minimum; otherwise good.
pub proof fn law_route_status_meaning(profit: int, buy_price: int, estimated: int, buy_volume: int, sell_volume: int, cfg: AnalysisSettings)
    ensures
        ({
            let st = spec_route_status(profit, buy_price, estimated, buy_volume, sell_volume, cfg);
            &&& (st == RouteStatus::NoSpread <==> profit <= 0)
            &&& (st == RouteStatus::LowSpread <==> profit > 0 && profit * 10000 < cfg.min_spread_bp * buy_price)
            &&& (st == RouteStatus::LowProfit <==> profit > 0 && profit * 10000 >= cfg.min_spread_bp * buy_price
                && estimated < cfg.min_profit)
            &&& (st == RouteStatus::LowTraffic <==> profit > 0 && profit * 10000 >= cfg.min_spread_bp * buy_price
                && estimated >= cfg.min_profit && (buy_volume < cfg.min_source_volume || sell_volume < cfg.min_destination_volume))
            &&& (st == RouteStatus::Good <==> profit > 0 && profit * 10000 >= cfg.min_spread_bp * buy_price
                && estimated >= cfg.min_profit && buy_volume >= cfg.min_source_volume && sell_volume >= cfg.min_destination_volume)
        }),
{
}

/// The suggested quantity is the least of what the source offers and the
/// caps that are known (each taken as no less than zero): it is at most each
/// of them and equal to one of them; an unknown cap does not lower it.
pub proof fn law_suggested_quantity_is_least_cap(source: int, cargo_units: Option<int>, destination_units: Option<int>)
    ensures
        ({
            let q = spec_suggested_quantity(source, cargo_units, destination_units);
            &&& q <= max0(source)
            &&& (cargo_units matches Some(u) ==> q <= max0(u))
            &&& (destination_units matches Some(u) ==> q <= max0(u))
            &&& (q == max0(source) || (cargo_units matches Some(u) && q == max0(u))
                || (destination_units matches Some(u) && q == max0(u)))
        }),
{
}

} // verus!
