//! Cost basis of a sell order inferred from earlier purchases, first in,
//! first out. Prices are fixed-point units as in `ticks`.

use vstd::prelude::*;

verus! {

/// One purchase: units bought and unit price.
#[derive(Clone, Copy, Debug, PartialEq, Eq)]
pub struct Purchase {
    pub quantity: i64,
    pub unit_price: i64,
}

/// Units matched against purchases and what they cost in total; the
/// average unit cost is `total_cost / matched`.
#[derive(Clone, Copy, Debug, PartialEq, Eq)]
pub struct CostBasis {
    pub total_cost: i128,
    pub matched: i64,
}

pub open spec fn max0(x: int) -> int {
    if x > 0 {
        x
    } else {
        0
    }
}

pub open spec fn min_int(a: int, b: int) -> int {
    if a < b {
        a
    } else {
        b
    }
}

/// Units and cost matched after walking the purchases in order, each taking
/// what is still needed and no more.
pub open spec fn fifo_walk(rows: Seq<Purchase>, needed: int) -> (int, int)
    decreases rows.len(),
{
    if rows.len() == 0 {
        (0, 0)
    } else {
        let (m, t) = fifo_walk(rows.drop_last(), needed);
        let take = max0(min_int(rows.last().quantity as int, needed - m));
        (m + take, t + take * rows.last().unit_price)
    }
}

/// Units bought in all the purchases (negative rows count as none).
pub open spec fn units_bought(rows: Seq<Purchase>) -> int
    decreases rows.len(),
{
    if rows.len() == 0 {
        0
    } else {
        units_bought(rows.drop_last()) + max0(rows.last().quantity as int)
    }
}

/// The cost basis for `needed` units: `None` when nothing is needed or nothing matches.
pub open spec fn spec_fifo_cost_basis(rows: Seq<Purchase>, needed: int) -> Option<CostBasis> {
    if needed <= 0 {
        None
    } else {
        let (m, t) = fifo_walk(rows, needed);
        if m == 0 {
            None
        } else {
            Some(CostBasis { total_cost: t as i128, matched: m as i64 })
        }
    }
}

/// First in, first out matches as many units as are needed, or as were bought
/// when that is fewer.
pub proof fn law_fifo_matches_what_is_available(rows: Seq<Purchase>, needed: int)
    requires
        needed >= 0,
    ensures
        fifo_walk(rows, needed).0 == min_int(needed, units_bought(rows)),
    decreases rows.len(),
{
    if rows.len() > 0 {
        law_fifo_matches_what_is_available(rows.drop_last(), needed);
        lemma_units_bought_nonneg(rows.drop_last());
    }
}

proof fn lemma_units_bought_nonneg(rows: Seq<Purchase>)
    ensures
        units_bought(rows) >= 0,
    decreases rows.len(),
{
    if rows.len() > 0 {
        lemma_units_bought_nonneg(rows.drop_last());
    }
}

/// Matches `needed` units of a sell order against purchases oldest first.
pub fn fifo_cost_basis(rows: &Vec<Purchase>, needed: i64) -> (r: Option<CostBasis>)
    ensures
        r == spec_fifo_cost_basis(rows@, needed as int),
{
    if needed <= 0 {
        return None;
    }
    let mut matched: i64 = 0;
    let mut total: i128 = 0;
    let mut i: usize = 0;
    while i < rows.len()
        invariant
            0 < needed,
            i <= rows.len(),
            (matched as int, total as int) == fifo_walk(rows@.take(i as int), needed as int),
            0 <= matched <= needed,
            -(matched as int) * 0x8000_0000_0000_0000 <= total <= (matched as int) * 0x8000_0000_0000_0000,
        decreases rows.len() - i,
    {
        let row = rows[i];
        assert(rows@.take(i + 1).drop_last() =~= rows@.take(i as int));
        assert(rows@.take(i + 1).last() == row);
        let remaining = needed - matched;
        let take: i64 = if row.quantity < remaining {
            if row.quantity > 0 {
                row.quantity
            } else {
                0
            }
        } else {
            remaining
        };
        let ghost m = matched as int;
        let ghost t = total as int;
        let ghost p = row.unit_price as int;
        assert(-(m + take) * 0x8000_0000_0000_0000 <= t + take * p <= (m + take) * 0x8000_0000_0000_0000)
            by (nonlinear_arith)
            requires
                -m * 0x8000_0000_0000_0000 <= t <= m * 0x8000_0000_0000_0000,
                0 <= take,
                -0x8000_0000_0000_0000 <= p < 0x8000_0000_0000_0000,
        ;
        assert((m + take) * 0x8000_0000_0000_0000 <= 0x8000_0000_0000_0000 * 0x8000_0000_0000_0000int) by (nonlinear_arith)
            requires
                m + take <= 0x8000_0000_0000_0000,
        ;
        total = total + take as i128 * row.unit_price as i128;
        matched = matched + take;
        i = i + 1;
    }
    assert(rows@.take(rows.len() as int) =~= rows@);
    if matched == 0 {
        None
    } else {
        Some(CostBasis { total_cost: total, matched })
    }
}

} // verus!
