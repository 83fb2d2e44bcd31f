use authdog_cli::api::{read_response, summarize_body_preview, ApiResource};
use authdog_cli::json::parse_json_str;
use authdog_cli::organizations::{organization_rows_from_body, organizations_error_body_preview, OrgRow};

#[test]
fn parses_organization_rows() {
    let v = parse_json_str(r#"{"organizations":[{"id":"o1","name":"Acme"},{"id":"o2"}]}"#).unwrap();
    let rows = organization_rows_from_body(&v);
    assert_eq!(rows.len(), 2);
    let o1 = rows.iter().find(|r| r.id == "o1").expect("o1");
    let o2 = rows.iter().find(|r| r.id == "o2").expect("o2");
    assert_eq!(o1.name.as_deref(), Some("Acme"));
    assert!(o2.name.is_none());
}

#[test]
fn organizations_cf_1003_detail_appends_ops_hint() {
    let body = r#"{"error":"Failed","detail":"403: error code: 1003 | 403: error code: 1003"}"#;
    let s = organizations_error_body_preview(403, body);
    assert!(s.contains("error code: 1003"));
    assert!(s.contains("Hint (ops):"));
    assert!(s.contains("mgt.authdog.com"));
}

#[test]
fn organizations_error_preview_extracts_rest_detail_json() {
    let body = r#"{"error":"Failed to fetch organizations","detail":"upstream: graphql rejected"}"#;
    let s = organizations_error_body_preview(403, body);
    assert!(s.contains("403"), "expected status in preview: {s}");
    assert!(s.contains("Failed to fetch organizations"), "{s}");
    assert!(s.contains("graphql rejected"), "{s}");
}

#[test]
fn display_primary_prefers_trimmed_name() {
    let named = OrgRow { id: "o1".into(), name: Some("  Acme  ".into()) };
    assert_eq!(named.display_primary(), "Acme");
    let blank = OrgRow { id: "o2".into(), name: Some("   ".into()) };
    assert_eq!(blank.display_primary(), "o2");
}

#[test]
fn status_preview_without_json_body_is_status_and_text() {
    let s = organizations_error_body_preview(502, "bad gateway");
    assert!(s.starts_with("502 Bad Gateway"), "{s}");
    assert!(s.contains("bad gateway"), "{s}");
}

#[test]
fn body_preview_cuts_at_char_boundary() {
    assert_eq!(summarize_body_preview("short", 10), "short");
    assert_eq!(summarize_body_preview("abcdef", 3), "abc … (+3 bytes)");
    assert_eq!(summarize_body_preview("aé", 2), "a … (+2 bytes)");
}

#[test]
fn invalid_json_body_is_explained() {
    let e = read_response(ApiResource::Organizations, 200, "nope").unwrap_err();
    assert!(e.starts_with("organizations response is not valid JSON: "), "{e}");
    assert!(e.contains("line 1"), "{e}");
    let e = read_response(ApiResource::Userinfo, 401, "denied").unwrap_err();
    assert_eq!(e, "userinfo 401 Unauthorized — denied");
    assert!(read_response(ApiResource::Tenants, 200, "{}").is_ok());
}

#[test]
fn organization_rows_sorted_by_name_then_id() {
    let v = authdog_cli::json::parse_json_str(
        r#"{"organizations":[{"id":"o3","name":"beta"},{"id":"o2","name":"Alpha"},{"id":"o1"},{"id":"o3","name":"beta"}]}"#,
    )
    .unwrap();
    let ids: Vec<String> = organization_rows_from_body(&v).into_iter().map(|r| r.id).collect();
    assert_eq!(ids, vec!["o1", "o2", "o3"]);
}

#[test]
fn organization_rows_strictly_sorted_and_trimmed() {
    let v = parse_json_str(r#"[{"id":" b ","name":" Beta "},{"id":"a","name":"alpha"},{"id":"a","name":"alpha"},{"id":"  "}]"#).unwrap();
    let rows = organization_rows_from_body(&v);
    assert_eq!(rows.len(), 2);
    assert_eq!(rows[0].id, "a");
    assert_eq!(rows[1].id, "b");
    assert_eq!(rows[1].name.as_deref(), Some("Beta"));
}
