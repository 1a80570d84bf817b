use eve_metrade::refresh::{
    account_refresh_message, auto_disable_cold, batch_errors, batch_summary, item_outcome,
    batch_size, looked_up_name, max_candidates, max_enabled_hubs, max_items_per_refresh, needs_type_lookup,
    new_tally, pauses_after, record_outcome, too_few_hubs, ItemOutcome,
};
use eve_metrade::text::{join, parse_i64_or, parse_u64_or};

#[test]
fn batch_settings() {
    assert_eq!(max_items_per_refresh("12"), 12);
    assert_eq!(max_items_per_refresh("0"), 1);
    assert_eq!(max_items_per_refresh("x"), 5);
    assert_eq!(max_items_per_refresh("-3"), 5);
    assert_eq!(max_candidates("250"), 250);
    assert_eq!(max_candidates("-4"), 1);
    assert_eq!(max_candidates(""), 500);
    assert_eq!(parse_u64_or("300", 7), 300);
    assert_eq!(parse_u64_or("3.5", 7), 7);
    assert_eq!(parse_i64_or("10000043", 0), 10000043);
    assert_eq!(parse_i64_or("ten", 10000002), 10000002);
    assert!(auto_disable_cold("TRUE"));
    assert!(auto_disable_cold("false"));
    assert!(!auto_disable_cold("FALSE"));
}

#[test]
fn item_outcomes() {
    assert_eq!(item_outcome(true, Err("boom".to_string()), true, 34), ItemOutcome::SkippedLowVolume);
    assert_eq!(item_outcome(false, Ok(true), true, 34), ItemOutcome::Cold);
    assert_eq!(item_outcome(false, Ok(true), false, 34), ItemOutcome::Written);
    assert_eq!(item_outcome(false, Ok(false), true, 34), ItemOutcome::Written);
    assert_eq!(item_outcome(false, Err("ESI 500 for u".to_string()), true, 34), ItemOutcome::Failed("34: ESI 500 for u".to_string()));
}

#[test]
fn the_tally_counts_every_item_once() {
    let outcomes = vec![
        ItemOutcome::Written,
        ItemOutcome::SkippedLowVolume,
        ItemOutcome::Failed("1: a".to_string()),
        ItemOutcome::Cold,
        ItemOutcome::Written,
        ItemOutcome::Failed("2: b".to_string()),
    ];
    let n = outcomes.len() as i64;
    let mut tally = new_tally();
    for o in outcomes {
        tally = record_outcome(tally, o);
    }
    assert_eq!(tally.written, 2);
    assert_eq!(tally.skipped_low_volume, 2);
    assert_eq!(tally.errors, vec!["1: a".to_string(), "2: b".to_string()]);
    assert_eq!(tally.written + tally.skipped_low_volume + tally.errors.len() as i64, n);
    assert_eq!(batch_errors(&tally), "1: a\n2: b");
    assert_eq!(batch_errors(&new_tally()), "");
}

#[test]
fn batch_summaries() {
    assert_eq!(
        batch_summary(5, 40, 0),
        "Priority refresh selected 5 of 40; high estimated profit and stale rows run first"
    );
    assert_eq!(
        batch_summary(5, 40, 2),
        "Priority refresh selected 5 of 40; high estimated profit and stale rows run first; skipped low target volume: 2"
    );
}

#[test]
fn joining() {
    let items = vec!["a".to_string(), "".to_string(), "c".to_string()];
    assert_eq!(join(&items, ", "), "a, , c");
    assert_eq!(join(&vec![], ", "), "");
    assert_eq!(join(&vec!["x".to_string()], "\n"), "x");
}

#[test]
fn hub_limits_and_account_messages() {
    assert_eq!(max_enabled_hubs("3"), 3);
    assert_eq!(max_enabled_hubs("1"), 2);
    assert_eq!(max_enabled_hubs(""), 3);
    assert_eq!(
        account_refresh_message(4, Some(12)),
        "Refreshed 4 active orders. Refreshed 12 wallet transactions."
    );
    assert_eq!(
        account_refresh_message(0, None),
        "Refreshed 0 active orders. Re-login required for wallet transactions scope."
    );
}

#[test]
fn type_lookups() {
    assert!(needs_type_lookup("", true));
    assert!(needs_type_lookup("  ", true));
    assert!(needs_type_lookup("Tritanium", false));
    assert!(!needs_type_lookup("Tritanium", true));
    assert_eq!(looked_up_name("  Tritanium "), Some("Tritanium".to_string()));
    assert_eq!(looked_up_name(" \t "), None);
}

#[test]
fn batch_selection_pauses_and_hub_counts() {
    assert_eq!(batch_size(40, 5), 5);
    assert_eq!(batch_size(3, 5), 3);
    assert_eq!(batch_size(0, 1), 0);
    assert!(pauses_after(&ItemOutcome::Written, 300));
    assert!(pauses_after(&ItemOutcome::Failed("1: x".to_string()), 1));
    assert!(!pauses_after(&ItemOutcome::Written, 0));
    assert!(!pauses_after(&ItemOutcome::Cold, 300));
    assert!(!pauses_after(&ItemOutcome::SkippedLowVolume, 300));
    assert_eq!(too_few_hubs(1), Some("Enable at least two trade hubs.".to_string()));
    assert_eq!(too_few_hubs(0), Some("Enable at least two trade hubs.".to_string()));
    assert_eq!(too_few_hubs(2), None);
}
