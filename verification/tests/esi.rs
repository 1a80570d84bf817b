use eve_metrade::esi::{
    esi_reply, header_u64, is_rate_limited, limit_entries, should_wait_for_reset, wait_seconds,
    EsiReply,
};

#[test]
fn replies_by_status() {
    assert_eq!(esi_reply(200, "u"), EsiReply::Body);
    assert_eq!(esi_reply(204, "u"), EsiReply::Body);
    assert_eq!(esi_reply(404, "u"), EsiReply::EmptyList);
    assert_eq!(esi_reply(420, "https://esi/x"), EsiReply::RateLimited("ESI rate limit 420 for https://esi/x".to_string()));
    assert_eq!(esi_reply(429, "v"), EsiReply::RateLimited("ESI rate limit 429 for v".to_string()));
    assert_eq!(esi_reply(500, "w"), EsiReply::Failed("ESI 500 for w".to_string()));
    assert_eq!(esi_reply(304, "w"), EsiReply::Failed("ESI 304 for w".to_string()));
    assert_eq!(esi_reply(199, "w"), EsiReply::Failed("ESI 199 for w".to_string()));
    assert!(is_rate_limited(420));
    assert!(is_rate_limited(429));
    assert!(!is_rate_limited(500));
}

#[test]
fn backing_off() {
    assert_eq!(wait_seconds(Some(5), Some(50), 60), 5);
    assert_eq!(wait_seconds(None, Some(50), 60), 50);
    assert_eq!(wait_seconds(None, None, 60), 60);
    assert_eq!(wait_seconds(Some(0), None, 60), 1);
    assert_eq!(wait_seconds(Some(9999), None, 60), 300);
    assert!(should_wait_for_reset(Some(20), 20));
    assert!(!should_wait_for_reset(Some(21), 20));
    assert!(!should_wait_for_reset(None, 20));
}

#[test]
fn headers_as_numbers() {
    assert_eq!(header_u64(Some("17")), Some(17));
    assert_eq!(header_u64(Some(" 17")), None);
    assert_eq!(header_u64(Some("-1")), None);
    assert_eq!(header_u64(None), None);
}

#[test]
fn recorded_limit_state() {
    let entries = limit_entries("https://esi/y", 429, Some(30), None, Some(12), "150/15m", Some(3), None, "2024-05-01T00:00:00Z");
    let pairs: Vec<(String, String)> = entries.into_iter().map(|e| (e.key, e.value)).collect();
    let expected: Vec<(String, String)> = vec![
        ("last_response_at", "2024-05-01T00:00:00Z"),
        ("last_status", "429"),
        ("retry_after", "30"),
        ("error_limit_remain", ""),
        ("error_limit_reset", "12"),
        ("rate_limit_limit", "150/15m"),
        ("rate_limit_remaining", "3"),
        ("rate_limit_used", ""),
        ("rate_limited", "TRUE"),
        ("last_url", "https://esi/y"),
    ]
    .into_iter()
    .map(|(k, v)| (k.to_string(), v.to_string()))
    .collect();
    assert_eq!(pairs, expected);
    let ok = limit_entries("u", 200, None, None, None, "", None, None, "t");
    assert_eq!(ok[8].value, "FALSE");
    assert_eq!(ok[1].value, "200");
}
