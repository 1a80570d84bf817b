//! Prices on the EVE market move in ticks of four significant digits, never
//! finer than 0.01 ISK. Prices here are fixed-point integers: one unit is
//! 1/10000 ISK.

use vstd::prelude::*;
use vstd::arithmetic::div_mod::{
    lemma_div_is_ordered, lemma_fundamental_div_mod, lemma_div_multiples_vanish,
    lemma_mod_multiples_basic, lemma_div_pos_is_pos,
};
use vstd::arithmetic::mul::{lemma_mul_inequality, lemma_mul_is_commutative};

verus! {

/// Units of a price per ISK.
pub const UNITS_PER_ISK: i64 = 10000;

/// 0.01 ISK, the smallest market tick.
pub const CENT: i64 = 100;

/// `10^n`.
pub open spec fn pow10(n: nat) -> int
    decreases n,
{
    if n == 0 {
        1
    } else {
        10 * pow10((n - 1) as nat)
    }
}

/// Number of decimal digits of a positive integer.
pub open spec fn digit_count(p: int) -> nat
    decreases p,
{
    if p < 10 {
        1
    } else {
        1 + digit_count(p / 10)
    }
}

/// Tick size of a price: `10^(digits - 4)` units, and never below one cent.
pub open spec fn spec_tick_size(price: int) -> int {
    if price <= 0 {
        CENT as int
    } else {
        let d = digit_count(price);
        if d <= 6 {
            CENT as int
        } else {
            pow10((d - 4) as nat)
        }
    }
}

/// The price rounded down to its tick; one cent at the least.
pub open spec fn spec_round_down(price: int) -> int {
    if price <= CENT {
        CENT as int
    } else {
        let t = spec_tick_size(price);
        (price / t) * t
    }
}

/// The highest tick price one cent or more below `price`.
pub open spec fn spec_previous_tick(price: int) -> int {
    spec_round_down(price - CENT)
}

/// A price that the market accepts as it stands.
pub open spec fn is_tick_price(price: int) -> bool {
    spec_round_down(price) == price
}

pub proof fn lemma_pow10_pos(n: nat)
    ensures
        pow10(n) > 0,
    decreases n,
{
    if n > 0 {
        lemma_pow10_pos((n - 1) as nat);
    }
}

pub proof fn lemma_pow10_mono(a: nat, b: nat)
    requires
        a <= b,
    ensures
        pow10(a) <= pow10(b),
    decreases b,
{
    if a < b {
        lemma_pow10_mono(a, (b - 1) as nat);
        lemma_pow10_pos((b - 1) as nat);
    }
}

pub proof fn lemma_pow10_add(a: nat, b: nat)
    ensures
        pow10(a + b) == pow10(a) * pow10(b),
    decreases b,
{
    if b == 0 {
        assert(pow10(a + b) == pow10(a));
    } else {
        lemma_pow10_add(a, (b - 1) as nat);
        assert(pow10(a + b) == 10 * pow10((a + b - 1) as nat));
        assert((a + b - 1) as nat == a + (b - 1) as nat);
        let x = pow10(a);
        let y = pow10((b - 1) as nat);
        assert(10 * (x * y) == x * (10 * y)) by (nonlinear_arith);
    }
}

/// A positive integer with `d` digits lies in `[10^(d-1), 10^d)`.
pub proof fn lemma_digit_bounds(p: int)
    requires
        p > 0,
    ensures
        digit_count(p) >= 1,
        pow10((digit_count(p) - 1) as nat) <= p,
        p < pow10(digit_count(p)),
    decreases p,
{
    if p < 10 {
        assert(pow10(0) == 1);
        assert(pow10(1) == 10 * pow10(0));
    } else {
        let q = p / 10;
        lemma_digit_bounds(q);
        let dq = digit_count(q);
        assert(digit_count(p) == 1 + dq);
        assert(pow10(dq) == 10 * pow10((dq - 1) as nat));
        assert(pow10(dq + 1) == 10 * pow10(dq));
        assert(((dq + 1) - 1) as nat == dq);
    }
}

/// The digit count is pinned down by the power-of-ten interval.
pub proof fn lemma_digit_count_unique(p: int, k: nat)
    requires
        k >= 1,
        pow10((k - 1) as nat) <= p,
        p < pow10(k),
    ensures
        digit_count(p) == k,
{
    lemma_pow10_pos((k - 1) as nat);
    lemma_digit_bounds(p);
    let d = digit_count(p);
    if d < k {
        lemma_pow10_mono(d, (k - 1) as nat);
    } else if d > k {
        lemma_pow10_mono(k, (d - 1) as nat);
    }
}

/// Rounding down to a multiple of `t` keeps every multiple of `t` at or below `p`.
pub proof fn lemma_round_keeps_multiple(p: int, t: int, k: int)
    requires
        t > 0,
        k >= 0,
        k * t <= p,
    ensures
        k * t <= (p / t) * t,
{
    lemma_mul_is_commutative(k, t);
    lemma_div_multiples_vanish(k, t);
    lemma_div_is_ordered(k * t, p, t);
    lemma_mul_inequality(k, p / t, t);
}

/// What rounding down does to a price above one cent: the result keeps the
/// price's digit count, sits on the tick grid, and is less than one tick below.
pub proof fn lemma_round_down_facts(p: int)
    requires
        p > CENT,
    ensures
        spec_tick_size(p) > 0,
        spec_tick_size(p) >= CENT,
        spec_round_down(p) <= p,
        p - spec_round_down(p) < spec_tick_size(p),
        spec_round_down(p) % spec_tick_size(p) == 0,
        pow10((digit_count(p) - 1) as nat) <= spec_round_down(p),
        digit_count(spec_round_down(p)) == digit_count(p),
        spec_round_down(p) >= CENT,
{
    lemma_digit_bounds(p);
    let d = digit_count(p);
    let t = spec_tick_size(p);
    let r = spec_round_down(p);
    assert(pow10(2) == 100) by {
        assert(pow10(0) == 1);
        assert(pow10(1) == 10);
    }
    if d <= 2 {
        lemma_pow10_mono(d, 2);
    }
    assert(d >= 3);
    // t divides 10^(d-1)
    let k: int;
    if d <= 6 {
        assert(t == 100);
        lemma_pow10_add(2, (d - 3) as nat);
        assert((2 + (d - 3) as nat) as nat == (d - 1) as nat);
        lemma_pow10_pos((d - 3) as nat);
        k = pow10((d - 3) as nat);
        lemma_mul_is_commutative(k, t);
    } else {
        assert(t == pow10((d - 4) as nat));
        lemma_pow10_add((d - 4) as nat, 3);
        assert(((d - 4) as nat + 3) as nat == (d - 1) as nat);
        assert(pow10(3) == 1000) by {
            assert(pow10(3) == 10 * pow10(2));
        }
        lemma_pow10_mono(2, (d - 4) as nat);
        k = 1000;
        lemma_mul_is_commutative(k, t);
    }
    assert(k * t == pow10((d - 1) as nat));
    assert(t > 0);
    lemma_round_keeps_multiple(p, t, k);
    lemma_fundamental_div_mod(p, t);
    lemma_mul_is_commutative(t, p / t);
    lemma_mod_multiples_basic(p / t, t);
    assert(r == (p / t) * t);
    lemma_digit_count_unique(r, d);
    lemma_pow10_mono(2, (d - 1) as nat);
}

/// Rounding down twice is rounding down once: a rounded price is a tick price.
pub proof fn law_round_down_idempotent(p: int)
    ensures
        spec_round_down(spec_round_down(p)) == spec_round_down(p),
        is_tick_price(spec_round_down(p)),
{
    if p > CENT {
        lemma_round_down_facts(p);
        let r = spec_round_down(p);
        if r > CENT {
            let t = spec_tick_size(p);
            assert(spec_tick_size(r) == t);
            lemma_fundamental_div_mod(r, t);
            lemma_mul_is_commutative(t, r / t);
        }
    }
}

/// Rounding down never moves a higher price below a lower one.
pub proof fn law_round_down_monotone(a: int, b: int)
    requires
        a <= b,
    ensures
        spec_round_down(a) <= spec_round_down(b),
{
    if b > CENT {
        lemma_round_down_facts(b);
        if a > CENT {
            lemma_round_down_facts(a);
            let da = digit_count(a);
            let db = digit_count(b);
            lemma_digit_bounds(a);
            lemma_digit_bounds(b);
            if da > db {
                lemma_pow10_mono(db, (da - 1) as nat);
            } else if da == db {
                let t = spec_tick_size(a);
                assert(spec_tick_size(b) == t);
                lemma_div_is_ordered(a, b, t);
                lemma_mul_inequality(a / t, b / t, t);
            } else {
                lemma_pow10_mono(da, (db - 1) as nat);
            }
        }
    }
}

/// The rounded price is at most the price and within one tick of it.
pub proof fn law_round_down_below(p: int)
    requires
        p > CENT,
    ensures
        spec_round_down(p) <= p,
        p - spec_round_down(p) < spec_tick_size(p),
        spec_round_down(p) % spec_tick_size(p) == 0,
{
    lemma_round_down_facts(p);
}

/// The tick below a competitor is a tick price, strictly below it, and no
/// tick price one cent or more below the competitor is higher.
pub proof fn law_previous_tick_is_greatest_below(p: int, q: int)
    requires
        p > CENT,
        is_tick_price(q),
        q <= p - CENT,
    ensures
        spec_previous_tick(p) < p,
        is_tick_price(spec_previous_tick(p)),
        q <= spec_previous_tick(p),
{
    if p - CENT > CENT {
        lemma_round_down_facts(p - CENT);
    }
    law_round_down_idempotent(p - CENT);
    law_round_down_monotone(q, p - CENT);
}

proof fn lemma_pow10_values()
    ensures
        pow10(14) == 100_000_000_000_000,
        pow10(19) == 10_000_000_000_000_000_000,
{
    reveal_with_fuel(pow10, 20);
}

/// Tick size of a price, in price units.
pub fn market_tick_size(price: i64) -> (tick: i64)
    ensures
        tick == spec_tick_size(price as int),
        tick >= CENT,
{
    if price <= 0 {
        return CENT;
    }
    proof {
        lemma_digit_bounds(price as int);
        lemma_pow10_values();
        if digit_count(price as int) > 19 {
            lemma_pow10_mono(19, (digit_count(price as int) - 1) as nat);
        }
    }
    let mut x: i64 = price;
    let mut d: u64 = 1;
    while x >= 10
        invariant
            0 < x <= price,
            d >= 1,
            digit_count(price as int) == d - 1 + digit_count(x as int),
            digit_count(price as int) <= 19,
        decreases x,
    {
        proof {
            lemma_digit_bounds((x / 10) as int);
        }
        x = x / 10;
        d = d + 1;
    }
    if d <= 6 {
        return CENT;
    }
    let e: u64 = d - 4;
    let mut t: i64 = 1;
    let mut i: u64 = 0;
    while i < e
        invariant
            i <= e,
            e <= 15,
            t == pow10(i as nat),
        decreases e - i,
    {
        proof {
            lemma_pow10_mono(i as nat, 14);
            lemma_pow10_values();
            lemma_pow10_pos(i as nat);
        }
        t = t * 10;
        i = i + 1;
    }
    proof {
        lemma_pow10_mono(2, e as nat);
        assert(pow10(2) == 100) by {
            assert(pow10(0) == 1);
            assert(pow10(1) == 10);
        }
    }
    t
}

/// Rounds a price down to its market tick; a price of one cent or less gives one cent.
pub fn round_down_market_tick(price: i64) -> (rounded: i64)
    ensures
        rounded == spec_round_down(price as int),
        rounded >= CENT,
{
    if price <= CENT {
        return CENT;
    }
    let t = market_tick_size(price);
    proof {
        lemma_round_down_facts(price as int);
    }
    (price / t) * t
}

/// The tick price to post just below a competing price.
pub fn previous_market_tick(price: i64) -> (below: i64)
    ensures
        below == spec_previous_tick(price as int),
        below >= CENT,
{
    if price <= 2 * CENT {
        return CENT;
    }
    round_down_market_tick(price - CENT)
}

} // verus!
