use eve_metrade::auth::token_error;
use eve_metrade::callback::callback_reply;
use eve_metrade::jobs::is_stale;

fn response(body: &str) -> String {
    format!(
        "HTTP/1.1 200 OK\r\nContent-Type: text/plain; charset=utf-8\r\nContent-Length: {}\r\nConnection: close\r\n\r\n{}",
        body.len(),
        body
    )
}

#[test]
fn a_successful_callback() {
    let request = "GET /callback?code=abc&state=xyz HTTP/1.1\r\nHost: localhost:17890\r\n\r\n";
    let reply = callback_reply(request, "/callback").unwrap();
    assert_eq!(
        reply.response,
        response("EVE Metrade received the login callback. You can close this tab and return to the app.")
    );
    let pairs = reply.login.unwrap();
    let pairs: Vec<(String, String)> = pairs.into_iter().map(|p| (p.key, p.value)).collect();
    assert_eq!(pairs, vec![("code".to_string(), "abc".to_string()), ("state".to_string(), "xyz".to_string())]);
}

#[test]
fn a_refused_login_shows_the_error() {
    let request = "GET /callback?error=access_denied&error_description=Nope%20%C3%A9 HTTP/1.1\r\n\r\n";
    let reply = callback_reply(request, "/callback").unwrap();
    let body = "EVE Metrade login failed: access_denied Nope é";
    assert_eq!(reply.response, response(body));
    assert!(reply.response.contains(&format!("Content-Length: {}\r\n", body.len())));
    assert!(reply.login.is_ok());
}

#[test]
fn a_callback_on_another_path() {
    let reply = callback_reply("GET /favicon.ico HTTP/1.1\r\n", "/callback").unwrap();
    assert_eq!(reply.response, response("EVE Metrade received an unexpected callback path."));
    assert_eq!(reply.login.err(), Some("Unexpected login callback path: /favicon.ico".to_string()));
}

#[test]
fn requests_without_a_target_are_invalid() {
    assert_eq!(callback_reply("", "/callback").err(), Some("Invalid EVE login callback.".to_string()));
    assert_eq!(callback_reply("GET\r\n/callback HTTP/1.1", "/callback").err(), Some("Invalid EVE login callback.".to_string()));
    let spaced = callback_reply("  GET \t /callback  ", "/callback").unwrap();
    assert!(spaced.login.is_ok());
}

#[test]
fn token_endpoint_errors() {
    assert_eq!(token_error("EVE token refresh", 200, "ignored"), None);
    assert_eq!(
        token_error("EVE token refresh", 400, "{\"error\":\"invalid_grant\"}"),
        Some("EVE token refresh failed: HTTP 400 {\"error\":\"invalid_grant\"}".to_string())
    );
}

#[test]
fn staleness() {
    assert!(!is_stale(120, 600, 5, 5));
    assert!(is_stale(121, 600, 5, 5));
    assert!(!is_stale(200, 600, 1, 5));
    assert!(is_stale(201, 600, 1, 5));
}
