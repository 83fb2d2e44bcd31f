use authdog_cli::identity::{compose_whoami_report, format_identity_json_pair, format_identity_pretty_display};
use authdog_cli::json::{parse_json_str, Json};
use authdog_cli::wasm::{decode_jwt_payload_pretty, default_api_origin, render_whoami_claims_from_jwt};
use authdog_cli::whoami::{
    decode_jwt_claims, describe_access_token, render_whoami_from_claims,
    render_whoami_from_claims_at, userinfo_endpoint_display, JwtError,
};
use base64::Engine;

fn json(s: &str) -> Json {
    parse_json_str(s).expect("valid JSON")
}

fn jwt_with_json_payload(obj_json: &str) -> String {
    let enc = base64::engine::general_purpose::URL_SAFE_NO_PAD.encode(obj_json.as_bytes());
    format!("xx.{enc}.sig")
}

#[test]
fn identity_pretty_table_envelope() {
    let v = json(
        r#"{
            "meta": { "code": 200, "message": "Success" },
            "session": { "remainingSeconds": 70856 },
            "user": {
                "active": true,
                "displayName": "Jane Q. User",
                "addresses": [],
                "emails": [
                    {"id": "uuid-1", "type": null, "value": "a@example.com"}
                ]
            }
        }"#,
    );
    let t = format_identity_pretty_display(&v);
    assert!(!t.trim_start().starts_with('{'));
    assert!(t.contains("Meta"));
    assert!(t.contains("code"));
    assert!(t.contains("200"));
    assert!(t.contains("Session"));
    assert!(t.contains("remainingSeconds"));
    assert!(t.contains("User"));
    assert!(t.contains("displayName"));
    assert!(t.contains("Emails"));
    assert!(t.contains('#'));
    assert!(t.contains("a@example.com"));
}

#[test]
fn identity_raw_json_is_pretty_printed() {
    let v = json(r#"{ "meta": { "code": 200 }, "user": { "id": "u1" } }"#);
    let (_, raw) = format_identity_json_pair(&v);
    assert!(raw.contains('\n'), "expected indented JSON with newlines, got single line");
    assert!(raw.contains("  \"meta\""));
    assert!(raw.contains("  \"user\""));
}

#[test]
fn decodes_and_renders_key_claims() {
    let jwt = jwt_with_json_payload(
        r#"{"sub":"google-oauth:e1","externalid":"google-oauth:e1","env":"uuid-env","iat":1710000000,"exp":1710086400}"#,
    );
    let claims = decode_jwt_claims(&jwt).expect("decode");
    let text = render_whoami_from_claims(&claims);
    assert!(text.contains("sub"));
    assert!(text.contains("google-oauth:e1"));
    assert!(text.contains("env"));
    assert!(text.contains("uuid-env"));
}

#[test]
fn skips_sid_claim() {
    let jwt = jwt_with_json_payload(r#"{"sub":"u1","sid":"SUPER_SECRET_SESSION","env":"e1","exp":9999999999}"#);
    let claims = decode_jwt_claims(&jwt).unwrap();
    let text = render_whoami_from_claims(&claims);
    assert!(!text.contains("SUPER_SECRET"));
    assert!(!text.contains("sid"));
}

#[test]
fn claims_preview_exact_layout() {
    let v = json(r#"{"custom":"x","env":"e1","sub":"u1"}"#);
    assert_eq!(
        render_whoami_from_claims_at(&v, 0),
        "  sub:       u1\n  env:       e1\n\n  Other claims:\n    custom:    x"
    );
}

#[test]
fn claims_preview_marks_expired_and_formats_times() {
    let v = json(r#"{"exp":100,"iat":40}"#);
    assert_eq!(
        render_whoami_from_claims_at(&v, 100),
        "  iat:       1970-01-01T00:00:40Z\n  exp:       1970-01-01T00:01:40Z (expired)"
    );
    assert_eq!(
        render_whoami_from_claims_at(&v, 99),
        "  iat:       1970-01-01T00:00:40Z\n  exp:       1970-01-01T00:01:40Z"
    );
}

#[test]
fn claims_preview_nested_other_claim_is_pretty_json() {
    let v = json(r#"{"roles":["a","b"]}"#);
    assert_eq!(
        render_whoami_from_claims_at(&v, 0),
        "\n  Other claims:\n    roles:\n      [\n        \"a\",\n        \"b\"\n      ]"
    );
}

#[test]
fn claims_preview_messages_for_empty_and_non_object() {
    assert_eq!(render_whoami_from_claims_at(&json("[1]"), 0), "(unexpected non-object JWT payload)");
    assert_eq!(
        render_whoami_from_claims_at(&json(r#"{"sid":"s"}"#), 0),
        "(JWT payload empty or only filtered fields)"
    );
    assert_eq!(render_whoami_from_claims_at(&json("{}"), 0), "(JWT payload empty or only filtered fields)");
}

#[test]
fn claims_preview_cuts_long_preferred_arrays() {
    let long: String = std::iter::repeat("\"abcdefghij\"").take(20).collect::<Vec<_>>().join(",");
    let v = json(&format!("{{\"aud\":[{long}]}}"));
    let text = render_whoami_from_claims_at(&v, 0);
    assert!(text.starts_with("  aud:       [\"abcdefghij\""), "{text}");
    assert!(text.ends_with(" chars)"), "{text}");
    let compact_len = 2 + 20 * 12 + 19;
    let kept = 160;
    assert!(text.contains(&format!("… (+{} chars)", compact_len - kept)), "{text}");
}

#[test]
fn jwt_errors() {
    let e = decode_jwt_claims("a.b").unwrap_err();
    assert_eq!(e.kind, JwtError::NotJwt);
    assert_eq!(e.message(), "not a JWT (expected header.payload.signature)");
    let e = decode_jwt_claims("a.!!!.c").unwrap_err();
    assert_eq!(e.kind, JwtError::Base64);
    assert_eq!(e.message(), "could not decode JWT payload (base64url): Invalid symbol 33, offset 0.");
    let not_json = base64::engine::general_purpose::URL_SAFE_NO_PAD.encode(b"nope");
    let e = decode_jwt_claims(&format!("a.{not_json}.c")).unwrap_err();
    assert_eq!(e.kind, JwtError::Json);
    assert!(e.message().starts_with("JWT payload is not valid JSON: "), "{}", e.message());
    assert!(e.message().contains("line 1"), "{}", e.message());
    assert_eq!(JwtError::NotJwt.message(), "not a JWT (expected header.payload.signature)");
    assert_eq!(describe_access_token("x").unwrap_err().kind, JwtError::NotJwt);
}

#[test]
fn browser_helpers() {
    let jwt = jwt_with_json_payload(r#"{"sub":"u1"}"#);
    assert_eq!(decode_jwt_payload_pretty(&jwt).unwrap(), "{\n  \"sub\": \"u1\"\n}");
    assert!(render_whoami_claims_from_jwt(&jwt).unwrap().contains("u1"));
    assert_eq!(
        decode_jwt_payload_pretty("x").unwrap_err(),
        "not a JWT (expected header.payload.signature)"
    );
    assert_eq!(default_api_origin(), "https://api.authdog.com");
}

#[test]
fn identity_section_exact_layout() {
    let v = json(r#"{"meta":{"code":200}}"#);
    let expected = format!("Meta\n{}\n  code:       200", "─".repeat(24));
    assert_eq!(format_identity_pretty_display(&v), expected);
}

#[test]
fn identity_sections_in_envelope_order() {
    let v = json(r#"{"zeta":1,"user":{"a":"b"},"alpha":"x","meta":{"m":1}}"#);
    let t = format_identity_pretty_display(&v);
    let pos = |s: &str| t.find(s).unwrap();
    assert!(pos("Meta\n") < pos("User\n"));
    assert!(pos("User\n") < pos("Alpha\n"));
    assert!(pos("Alpha\n") < pos("Zeta\n"));
    assert!(t.contains(&format!("Alpha\n{}\n  x", "─".repeat(24))));
}

#[test]
fn identity_table_of_objects() {
    let v = json(r#"{"user":{"emails":[{"value":"a@x","id":"1"},{"id":"2","createdAt":"t"}]}}"#);
    let t = format_identity_pretty_display(&v);
    assert!(t.contains("  Emails  (2 entries)\n"), "{t}");
    assert!(t.contains("      #  id    value  createdAt"), "{t}");
    assert!(t.contains("      1  1     a@x    —        "), "{t}");
    assert!(t.contains("      2  2     —      t        "), "{t}");
}

#[test]
fn identity_non_object_is_pretty_json() {
    assert_eq!(format_identity_pretty_display(&json("[1]")), "[\n  1\n]");
}

#[test]
fn whoami_report_layout() {
    let ok: Result<Json, String> = Ok(json(r#"{"meta":{"code":200}}"#));
    let r = compose_whoami_report("https://api.example.com/", &ok, Some("credentials file: /c".into()));
    assert!(r.starts_with("── Identity (https://api.example.com/v1/userinfo) ──\nMeta\n"), "{r}");
    assert!(r.ends_with("\n\ncredentials file: /c"), "{r}");
    let err: Result<Json, String> = Err("userinfo 401 Unauthorized — no".into());
    assert_eq!(
        compose_whoami_report("https://api.example.com", &err, None),
        "── Identity (https://api.example.com/v1/userinfo) ──\n  (could not load) userinfo 401 Unauthorized — no"
    );
    assert_eq!(userinfo_endpoint_display("https://a.b//"), "https://a.b/v1/userinfo");
}

#[test]
fn claims_preview_empty_only_when_all_keys_are_sid() {
    let only_sid = render_whoami_from_claims_at(&json(r#"{"sid":"x"}"#), 0);
    assert_eq!(only_sid, "(JWT payload empty or only filtered fields)");
    let with_other = render_whoami_from_claims_at(&json(r#"{"sid":"x","zeta":"1","alpha":"2","sub":"u"}"#), 0);
    assert!(with_other.contains("sub"));
    assert!(!with_other.contains("sid"));
    let sub_at = with_other.find("sub").unwrap();
    let other_at = with_other.find("Other claims:").unwrap();
    let alpha_at = with_other.find("alpha").unwrap();
    let zeta_at = with_other.find("zeta").unwrap();
    assert!(sub_at < other_at && other_at < alpha_at && alpha_at < zeta_at);
}
