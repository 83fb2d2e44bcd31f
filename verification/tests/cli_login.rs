use authdog_cli::cli_login::{
    cli_poll_url, cli_redeem_url, cli_signin_url, loopback_reply_for_request_line,
    looks_like_grant, parse_grant_from_request_target, poll_step_for_response,
    redeem_step_for_response, CliAuthConfig, LoopbackReply, PollError, PollStep,
    POLL_RETRY_MILLIS,
};

#[test]
fn parses_grant_query_from_redirect_target() {
    let hex = format!("{:064x}", 1u128);
    let uri = format!("/oauth/callback?grant={hex}");
    assert_eq!(parse_grant_from_request_target(&uri), Some(hex.clone()));
    assert_eq!(parse_grant_from_request_target("/nope"), None);
    assert_eq!(parse_grant_from_request_target("/oauth/callback?grant=nothex"), None);
}

#[test]
fn cli_urls_strip_trailing_slash_on_origin() {
    let cfg = CliAuthConfig::new("https://identity.authdog.com/", "env-id");
    let sid = "00000000-0000-4000-b000-000000000042";
    let signin =
        url::Url::parse(&cli_signin_url(&cfg, sid, 42_424).unwrap()).expect("identity sign-in url");
    assert_eq!(signin.host_str(), Some("identity.authdog.com"),);
    let mut qs = std::collections::HashMap::<String, String>::new();
    for (k, v) in signin.query_pairs() {
        qs.insert(k.into_owned(), v.into_owned());
    }
    assert_eq!(qs.get("cli_sess").map(String::as_str), Some(sid));
    assert_eq!(
        qs.get("cli_redirect").map(String::as_str),
        Some("http://127.0.0.1:42424/oauth/callback"),
    );
    assert_eq!(
        cli_poll_url(&cfg, sid),
        "https://identity.authdog.com/api/v1/cli/oauth/poll?session=00000000-0000-4000-b000-000000000042"
    );
}

#[test]
fn poll_step_pending_maps_to_wait() {
    let step = poll_step_for_response(200, r#"{"status":"pending"}"#).unwrap();
    assert_eq!(step, PollStep::Wait(750));
}

#[test]
fn poll_step_complete_requires_tokens() {
    let step = poll_step_for_response(
        200,
        r#"{"status":"complete","access_token":"aa","refresh_token":"bb"}"#,
    )
    .unwrap();
    assert_eq!(
        step,
        PollStep::Tokens { access_token: "aa".into(), refresh_token: "bb".into() }
    );

    poll_step_for_response(200, r#"{"status":"complete","access_token":"","refresh_token":"b"}"#)
        .expect_err("empty access_token");
}

#[test]
fn poll_step_expired_returns_err() {
    let err = poll_step_for_response(410, r#"{}"#).expect_err("410");
    assert!(err.message().contains("expired"), "{}", err.message());
}

#[test]
fn poll_step_error_propagates_message() {
    let err = poll_step_for_response(200, r#"{"status":"error","error":"oops"}"#).expect_err("err");
    assert!(err.message().contains("oops"));
}

#[test]
fn poll_step_unknown_terminal_status_fallback_wait() {
    let step = poll_step_for_response(
        200,
        r#"{"status":"unexpected","access_token":"","refresh_token":""}"#,
    )
    .unwrap();
    assert_eq!(step, PollStep::Wait(750));
}

#[test]
fn poll_step_missing_refresh_token_and_bad_json() {
    let e = poll_step_for_response(200, r#"{"status":"complete","access_token":"a"}"#).unwrap_err();
    assert_eq!(e, PollError::MissingRefreshToken);
    let e = poll_step_for_response(200, "not json").unwrap_err();
    assert!(matches!(e, PollError::InvalidJson { status: 200, .. }));
    let e = poll_step_for_response(500, "down").unwrap_err();
    assert!(matches!(e, PollError::Http { status: 500, .. }));
    let e = poll_step_for_response(200, r#"{"status":"error"}"#).unwrap_err();
    assert_eq!(e, PollError::Server("poll error".to_string()));
    assert_eq!(POLL_RETRY_MILLIS, 750);
}

#[test]
fn redeem_matches_poll() {
    let body = r#"{"status":"complete","access_token":"x","refresh_token":"y"}"#;
    assert_eq!(redeem_step_for_response(200, body), poll_step_for_response(200, body));
}

#[test]
fn redeem_url_and_grant_shape() {
    let cfg = CliAuthConfig::new("https://id.example.com//", "e");
    assert_eq!(cli_redeem_url(&cfg), "https://id.example.com/api/v1/cli/oauth/redeem");
    assert!(looks_like_grant(&"a".repeat(64)));
    assert!(!looks_like_grant(&"a".repeat(63)));
    assert!(!looks_like_grant(&"g".repeat(64)));
}

#[test]
fn loopback_replies() {
    let hex = "0".repeat(64);
    assert_eq!(
        loopback_reply_for_request_line(&format!("GET /oauth/callback?grant={hex} HTTP/1.1\r\n")),
        LoopbackReply::Grant(hex.clone())
    );
    assert_eq!(loopback_reply_for_request_line("GET\r\n"), LoopbackReply::BadRequest);
    assert_eq!(
        loopback_reply_for_request_line("POST /oauth/callback HTTP/1.1"),
        LoopbackReply::MethodNotAllowed
    );
    assert_eq!(loopback_reply_for_request_line("GET /favicon.ico HTTP/1.1"), LoopbackReply::NotFound);
}

#[test]
fn poll_invalid_json_message_carries_parser_detail() {
    let e = poll_step_for_response(200, "not json").unwrap_err();
    let m = e.message();
    assert!(m.starts_with("invalid poll JSON (HTTP 200): not json: "));
    assert!(m.len() > "invalid poll JSON (HTTP 200): not json: ".len());
    let e = poll_step_for_response(200, r#"{"other":1}"#).unwrap_err();
    assert_eq!(e.message(), r#"invalid poll JSON (HTTP 200): {"other":1}"#);
}
