use eve_metrade::auth::{
    authorize_url, callback_outcome, callback_parts, client_id_setting, has_scope, jwt_payload,
    parse_query, pkce_challenge, query_value, random_url_token, require_refresh_token,
    token_identity, url_token, CallbackOutcome,
};

#[test]
fn callback_urls() {
    assert_eq!(callback_parts("http://localhost:17890/callback"), Ok((17890, "/callback".to_string())));
    assert_eq!(callback_parts("http://127.0.0.1:8080/a/b"), Ok((8080, "/a/b".to_string())));
    assert_eq!(callback_parts("http://localhost:9000"), Ok((9000, "/callback".to_string())));
    assert_eq!(callback_parts("http://localhost:9000/"), Ok((9000, "/".to_string())));
    assert_eq!(
        callback_parts("https://localhost:9000/callback"),
        Err("Callback URL must start with http://localhost: or http://127.0.0.1:".to_string())
    );
    assert_eq!(callback_parts("http://localhost:99999/x"), Err("Callback URL port must be a number.".to_string()));
    assert_eq!(callback_parts("http://localhost:/x"), Err("Callback URL port must be a number.".to_string()));
}

#[test]
fn pkce_challenge_is_the_rfc_example() {
    assert_eq!(
        pkce_challenge("dBjftJeZ4CVP-mB92K27uhbUJU1p1r_wW1gFWFOEjXk"),
        "E9Melhoa2OwvFrEMTJguCHaoeK1t8URWbuGJSstw-cM"
    );
}

#[test]
fn tokens_are_unpadded_url_safe_base64() {
    assert_eq!(url_token(&vec![0, 1, 2]), "AAEC");
    assert_eq!(url_token(&vec![251, 255]), "-_8");
    assert_eq!(url_token(&vec![]), "");
}

#[test]
fn the_authorize_url_encodes_every_part() {
    let url = authorize_url("http://localhost:17890/callback", "abc123", "esi-a.v1 esi-b.v1", "chal-_", "st~");
    assert_eq!(
        url,
        "https://login.eveonline.com/v2/oauth/authorize/?response_type=code&redirect_uri=http%3A%2F%2Flocalhost%3A17890%2Fcallback&client_id=abc123&scope=esi-a.v1%20esi-b.v1&code_challenge=chal-_&code_challenge_method=S256&state=st~"
    );
}

#[test]
fn query_strings() {
    let pairs = parse_query("code=abc%20d&state=x&bad&state=y&k=%FF&=empty");
    let keys: Vec<(String, String)> = pairs.iter().map(|p| (p.key.clone(), p.value.clone())).collect();
    assert_eq!(
        keys,
        vec![
            ("code".to_string(), "abc d".to_string()),
            ("state".to_string(), "x".to_string()),
            ("state".to_string(), "y".to_string()),
            ("".to_string(), "empty".to_string()),
        ]
    );
    assert_eq!(query_value(&pairs, "state"), Some("y"));
    assert_eq!(query_value(&pairs, "code"), Some("abc d"));
    assert_eq!(query_value(&pairs, "missing"), None);
    assert!(parse_query("").is_empty());
}

#[test]
fn callback_outcomes() {
    let ok = parse_query("code=C1&state=S");
    match callback_outcome(&ok, "S") {
        CallbackOutcome::Code(c) => assert_eq!(c, "C1"),
        other => panic!("unexpected {:?}", other),
    }
    match callback_outcome(&ok, "T") {
        CallbackOutcome::Rejected { log, error } => {
            assert_eq!(log, Some("EVE login state did not match.".to_string()));
            assert_eq!(error, "EVE login state did not match. Please try again.");
        }
        other => panic!("unexpected {:?}", other),
    }
    let failed = parse_query("state=S&error=access_denied&error_description=User%20said%20no");
    match callback_outcome(&failed, "S") {
        CallbackOutcome::Rejected { log, error } => {
            assert_eq!(log, Some("EVE login failed: access_denied: User said no".to_string()));
            assert_eq!(error, "EVE login failed: access_denied");
        }
        other => panic!("unexpected {:?}", other),
    }
    let no_code = parse_query("error=x");
    match callback_outcome(&no_code, "") {
        CallbackOutcome::Rejected { log, error } => {
            assert_eq!(log, Some("EVE login failed: x".to_string()));
            assert_eq!(error, "EVE login failed: x");
        }
        other => panic!("unexpected {:?}", other),
    }
    match callback_outcome(&parse_query("state=S"), "S") {
        CallbackOutcome::Rejected { log, error } => {
            assert_eq!(log, None);
            assert_eq!(error, "EVE login did not return a code.");
        }
        other => panic!("unexpected {:?}", other),
    }
}

#[test]
fn identities_from_token_claims() {
    let who = token_identity("CHARACTER:EVE:90000001", None, None, "a b").unwrap();
    assert_eq!(who.character_id, 90000001);
    assert_eq!(who.character_name, "Character 90000001");
    assert_eq!(who.scopes, "a b");
    let named = token_identity("90000002", Some("Pilot".to_string()), Some(vec!["x".to_string(), "y".to_string()]), "a").unwrap();
    assert_eq!(named.character_id, 90000002);
    assert_eq!(named.character_name, "Pilot");
    assert_eq!(named.scopes, "x y");
    assert_eq!(
        token_identity("CHARACTER:EVE:abc", None, None, "").err(),
        Some("EVE token character ID was not numeric.".to_string())
    );
}

#[test]
fn jwt_payloads() {
    assert_eq!(jwt_payload("head.eyJzdWIiOiJ4In0.sig"), Ok(b"{\"sub\":\"x\"}".to_vec()));
    assert_eq!(jwt_payload("nodots"), Err("EVE access token was not a JWT.".to_string()));
    let bad = jwt_payload("a.@@.c").unwrap_err();
    assert!(bad.starts_with("Could not decode EVE token: "));
    assert!(bad.len() > "Could not decode EVE token: ".len());
}

#[test]
fn random_tokens_have_the_asked_length() {
    let a = random_url_token(32);
    let b = random_url_token(32);
    assert_eq!(a.len(), 43);
    assert_eq!(random_url_token(24).len(), 32);
    assert!(a.chars().all(|c| c.is_ascii_alphanumeric() || c == '-' || c == '_'));
    assert_ne!(a, b);
}

#[test]
fn scopes_are_whole_words() {
    let scopes = "esi-markets.read_character_orders.v1  esi-wallet.read_character_wallet.v1";
    assert!(has_scope(scopes, "esi-wallet.read_character_wallet.v1"));
    assert!(!has_scope(scopes, "esi-wallet"));
    assert!(!has_scope("", "esi-wallet.read_character_wallet.v1"));
    assert!(has_scope("\tx\n", "x"));
}

#[test]
fn client_id_settings() {
    assert_eq!(client_id_setting("  abc123 "), Ok("abc123".to_string()));
    assert_eq!(client_id_setting(" \t"), Err("Set EVE SSO client ID in Settings first.".to_string()));
    assert_eq!(client_id_setting(""), Err("Set EVE SSO client ID in Settings first.".to_string()));
}

#[test]
fn refresh_tokens_are_required() {
    assert_eq!(require_refresh_token(Some("r1".to_string())), Ok("r1".to_string()));
    assert_eq!(
        require_refresh_token(None),
        Err("EVE did not return a refresh token. Check the app is configured as a native app.".to_string())
    );
}

#[test]
fn url_decoding_edge_cases() {
    let pairs = parse_query("a=%zz&b=%4&c=100%&d=%41%2b+&e=%e2%82%ac");
    let got: Vec<(String, String)> = pairs.into_iter().map(|p| (p.key, p.value)).collect();
    assert_eq!(
        got,
        vec![
            ("a".to_string(), "%zz".to_string()),
            ("b".to_string(), "%4".to_string()),
            ("c".to_string(), "100%".to_string()),
            ("d".to_string(), "A++".to_string()),
            ("e".to_string(), "\u{20ac}".to_string()),
        ]
    );
}
