//! A refresh batch: its settings, what each item's refresh comes to, the
//! tally kept over the batch and the summary it ends with.

use vstd::prelude::*;
use crate::jobs::{item_error, spec_item_error};
use crate::text::{
    join, owned, parse_i64_or, parse_usize, push_decimal, push_str, push_unsigned, same_text,
    spec_decimal, spec_i64_or, spec_join, spec_parse_unsigned, spec_trim, string_from_chars,
    string_views, trim_chars,
};

verus! {

/// A setting read as an unsigned integer no larger than `max`, or `default`.
pub open spec fn spec_unsigned_setting(text: Seq<char>, max: int, default: int) -> int {
    match spec_parse_unsigned(text) {
        Some(x) => if x <= max {
            x
        } else {
            default
        },
        None => default,
    }
}

/// "Max items per refresh": five unless set, and at least one.
pub fn max_items_per_refresh(text: &str) -> (r: usize)
    ensures
        r == (if spec_unsigned_setting(text@, usize::MAX as int, 5) < 1 {
            1
        } else {
            spec_unsigned_setting(text@, usize::MAX as int, 5)
        }),
        r >= 1,
{
    let n = match parse_usize(text) {
        Some(x) => x,
        None => 5,
    };
    if n < 1 {
        1
    } else {
        n
    }
}

/// "Candidate max enabled products": 500 unless set, and at least one.
pub fn max_candidates(text: &str) -> (r: i64)
    ensures
        r == (if spec_i64_or(text@, 500) < 1 {
            1
        } else {
            spec_i64_or(text@, 500)
        }),
        r >= 1,
{
    let n = parse_i64_or(text, 500);
    if n < 1 {
        1
    } else {
        n
    }
}

/// "Auto-disable cold items" is on unless it reads exactly `FALSE`.
pub fn auto_disable_cold(text: &str) -> (r: bool)
    ensures
        r == (text@ != "FALSE"@),
{
    !same_text(text, "FALSE")
}

/// What refreshing one item of the batch came to.
#[derive(Debug, PartialEq, Eq)]
pub enum ItemOutcome {
    /// Its target market trades too little: not fetched.
    SkippedLowVolume,
    /// Fetched, found cold and disabled.
    Cold,
    /// Fetched and its opportunity written.
    Written,
    /// The fetch failed; the message is tagged with the item.
    Failed(String),
}

/// Decides an item's outcome: a low-volume skip comes first; a fetch that
/// found a cold market disables the item when cold items are disabled; a
/// failed fetch records its error against the item's type ID.
pub fn item_outcome(skip_low_volume: bool, fetched: Result<bool, String>, disable_cold: bool, type_id: i64) -> (r: ItemOutcome)
    ensures
        skip_low_volume ==> r == ItemOutcome::SkippedLowVolume,
        !skip_low_volume ==> match fetched {
            Ok(cold) => r == (if disable_cold && cold {
                ItemOutcome::Cold
            } else {
                ItemOutcome::Written
            }),
            Err(e) => r matches ItemOutcome::Failed(m) && m@ == spec_item_error(type_id, e@),
        },
{
    if skip_low_volume {
        return ItemOutcome::SkippedLowVolume;
    }
    match fetched {
        Ok(cold) => if disable_cold && cold {
            ItemOutcome::Cold
        } else {
            ItemOutcome::Written
        },
        Err(e) => ItemOutcome::Failed(item_error(type_id, e.as_str())),
    }
}

/// Counts kept over a batch.
#[derive(Debug)]
pub struct BatchTally {
    pub written: i64,
    pub skipped_low_volume: i64,
    pub errors: Vec<String>,
}

/// Items the tally has seen.
pub open spec fn tally_items(t: BatchTally) -> int {
    t.written + t.skipped_low_volume + t.errors@.len()
}

pub fn new_tally() -> (t: BatchTally)
    ensures
        t.written == 0,
        t.skipped_low_volume == 0,
        t.errors@.len() == 0,
        tally_items(t) == 0,
{
    BatchTally { written: 0, skipped_low_volume: 0, errors: Vec::new() }
}

/// Counts one item's outcome: skips and cold items as skipped, written ones
/// as written, failures by their message. Every item is counted exactly once.
pub fn record_outcome(tally: BatchTally, outcome: ItemOutcome) -> (r: BatchTally)
    requires
        tally.written < i64::MAX,
        tally.skipped_low_volume < i64::MAX,
    ensures
        tally_items(r) == tally_items(tally) + 1,
        match outcome {
            ItemOutcome::SkippedLowVolume | ItemOutcome::Cold => r.written == tally.written
                && r.skipped_low_volume == tally.skipped_low_volume + 1 && r.errors@ == tally.errors@,
            ItemOutcome::Written => r.written == tally.written + 1 && r.skipped_low_volume
                == tally.skipped_low_volume && r.errors@ == tally.errors@,
            ItemOutcome::Failed(m) => r.written == tally.written && r.skipped_low_volume
                == tally.skipped_low_volume && r.errors@ == tally.errors@.push(m),
        },
{
    let mut t = tally;
    match outcome {
        ItemOutcome::SkippedLowVolume => {
            t.skipped_low_volume = t.skipped_low_volume + 1;
        },
        ItemOutcome::Cold => {
            t.skipped_low_volume = t.skipped_low_volume + 1;
        },
        ItemOutcome::Written => {
            t.written = t.written + 1;
        },
        ItemOutcome::Failed(m) => {
            t.errors.push(m);
        },
    }
    t
}

/// The errors of a batch, one per line.
pub fn batch_errors(tally: &BatchTally) -> (r: String)
    ensures
        r@ == spec_join(string_views(tally.errors@), "\n"@),
{
    join(&tally.errors, "\n")
}

/// The summary a batch run is stored with.
pub open spec fn spec_batch_summary(selected: int, total: int, skipped_low_volume: int) -> Seq<char> {
    "Priority refresh selected "@ + spec_decimal(selected) + " of "@ + spec_decimal(total)
        + "; high estimated profit and stale rows run first"@ + if skipped_low_volume > 0 {
        "; skipped low target volume: "@ + spec_decimal(skipped_low_volume)
    } else {
        Seq::empty()
    }
}

pub fn batch_summary(selected: usize, total: usize, skipped_low_volume: i64) -> (r: String)
    ensures
        r@ == spec_batch_summary(selected as int, total as int, skipped_low_volume as int),
{
    let mut v: Vec<char> = Vec::new();
    push_str(&mut v, "Priority refresh selected ");
    push_unsigned(&mut v, selected as u64);
    push_str(&mut v, " of ");
    push_unsigned(&mut v, total as u64);
    push_str(&mut v, "; high estimated profit and stale rows run first");
    if skipped_low_volume > 0 {
        push_str(&mut v, "; skipped low target volume: ");
        push_unsigned(&mut v, skipped_low_volume as u64);
    }
    assert(v@ =~= spec_batch_summary(selected as int, total as int, skipped_low_volume as int));
    string_from_chars(v.as_slice())
}

/// "Max enabled hubs for ESI refresh": three unless set, and at least two.
pub fn max_enabled_hubs(text: &str) -> (r: usize)
    ensures
        r == (if spec_unsigned_setting(text@, usize::MAX as int, 3) < 2 {
            2
        } else {
            spec_unsigned_setting(text@, usize::MAX as int, 3)
        }),
        r >= 2,
{
    let n = match parse_usize(text) {
        Some(x) => x,
        None => 3,
    };
    if n < 2 {
        2
    } else {
        n
    }
}

/// The message of an account refresh: the active orders refreshed, then the
/// wallet transactions refreshed, or a request to log in again when the
/// login lacks the wallet scope.
pub open spec fn spec_account_message(orders: int, transactions: Option<i64>) -> Seq<char> {
    "Refreshed "@ + spec_decimal(orders) + " active orders."@ + match transactions {
        Some(t) => " Refreshed "@ + spec_decimal(t as int) + " wallet transactions."@,
        None => " Re-login required for wallet transactions scope."@,
    }
}

pub fn account_refresh_message(orders: usize, transactions: Option<i64>) -> (r: String)
    ensures
        r@ == spec_account_message(orders as int, transactions),
{
    let mut v: Vec<char> = Vec::new();
    push_str(&mut v, "Refreshed ");
    push_unsigned(&mut v, orders as u64);
    push_str(&mut v, " active orders.");
    match transactions {
        Some(t) => {
            push_str(&mut v, " Refreshed ");
            push_decimal(&mut v, t);
            push_str(&mut v, " wallet transactions.");
        },
        None => {
            push_str(&mut v, " Re-login required for wallet transactions scope.");
        },
    }
    assert(v@ =~= spec_account_message(orders as int, transactions));
    string_from_chars(v.as_slice())
}

/// An item's type information is looked up when its name is blank or its
/// volume is not cached.
pub fn needs_type_lookup(name: &str, volume_cached: bool) -> (r: bool)
    ensures
        r == (spec_trim(name@).len() == 0 || !volume_cached),
{
    let t = trim_chars(name);
    t.len() == 0 || !volume_cached
}

/// The name to keep from a type lookup: the looked-up name trimmed, unless it is blank.
pub fn looked_up_name(name: &str) -> (r: Option<String>)
    ensures
        spec_trim(name@).len() == 0 ==> r is None,
        spec_trim(name@).len() > 0 ==> (r matches Some(n) && n@ == spec_trim(name@)),
{
    let t = trim_chars(name);
    if t.len() == 0 {
        None
    } else {
        Some(string_from_chars(t.as_slice()))
    }
}

/// How many of the enabled products a batch takes: the first `max_items`, or all when fewer.
pub fn batch_size(product_count: usize, max_items: usize) -> (r: usize)
    ensures
        r == (if product_count < max_items { product_count } else { max_items }),
{
    if product_count < max_items {
        product_count
    } else {
        max_items
    }
}

/// The batch waits after an item that was fetched (written or failed), when a delay is set.
pub fn pauses_after(outcome: &ItemOutcome, delay_ms: u64) -> (r: bool)
    ensures
        r == (delay_ms > 0 && (*outcome is Written || *outcome is Failed)),
{
    let fetched = match outcome {
        ItemOutcome::Written => true,
        ItemOutcome::Failed(_) => true,
        _ => false,
    };
    fetched && delay_ms > 0
}

pub open spec fn too_few_hubs_message() -> Seq<char> {
    "Enable at least two trade hubs."@
}

/// An item cannot be compared with fewer than two enabled hubs; the note says so.
pub fn too_few_hubs(hub_count: usize) -> (r: Option<String>)
    ensures
        hub_count < 2 ==> (r matches Some(m) && m@ == too_few_hubs_message()),
        hub_count >= 2 ==> r is None,
{
    if hub_count < 2 {
        Some(owned("Enable at least two trade hubs."))
    } else {
        None
    }
}

} // verus!
