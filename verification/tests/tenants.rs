use authdog_cli::json::{parse_json_str, Json};
use authdog_cli::tenants::{
    compose_tenants_report, filter_tenants_for_organization,
    filter_tenants_for_organization_for_browse, tenant_ids_from_body,
    tenant_listing_rows_from_body, tenant_rows_from_body, tenants_error_body_preview,
    tenants_list_url_for_display, TenantRow,
};

fn json(s: &str) -> Json {
    parse_json_str(s).expect("valid JSON")
}

fn row(id: &str, org: Option<&str>, orgs: Option<Vec<&str>>) -> TenantRow {
    TenantRow {
        id: id.into(),
        name: None,
        organization_id: org.map(|s| s.to_string()),
        organization_ids: orgs.map(|v| v.into_iter().map(|s| s.to_string()).collect()),
    }
}

#[test]
fn tenant_listing_rows_applies_org_scope_when_payload_has_org_metadata() {
    let v = json(
        r#"{"tenants":[
           {"id":"in-org","name":"A","organizationIds":["org-x"]},
           {"id":"other","name":"B","organizationIds":["org-y"]}
        ]}"#,
    );
    let (rows, note) = tenant_listing_rows_from_body(&v, Some("org-x"));
    assert!(note.is_none());
    assert_eq!(rows.len(), 1);
    assert_eq!(rows[0].id, "in-org");
}

#[test]
fn tenants_list_url_display_adds_org_query() {
    let u = tenants_list_url_for_display("https://api.example.com", Some("org-1"));
    assert_eq!(u, "https://api.example.com/v1/tenants?organization_id=org-1");
    let base = tenants_list_url_for_display("https://api.example.com", None);
    assert_eq!(base, "https://api.example.com/v1/tenants");
    assert_eq!(
        tenants_list_url_for_display("https://api.example.com/", Some("  x  ")),
        "https://api.example.com/v1/tenants?organization_id=x"
    );
}

#[test]
fn tenants_cf_1003_detail_appends_ops_hint() {
    let body = r#"{"error":"Failed","detail":"403: error code: 1003 | 403: error code: 1003"}"#;
    let s = tenants_error_body_preview(403, body);
    assert!(s.contains("error code: 1003"));
    assert!(s.contains("Hint (ops):"));
    assert!(s.contains("mgt.authdog.com"));
}

#[test]
fn collects_ids_from_tenants_field() {
    let v = json(r#"{"tenants":[{"id":"a"},{"id":"b"},{"foo":1}]}"#);
    assert_eq!(tenant_ids_from_body(&v), vec!["a".to_string(), "b".to_string()]);
}

#[test]
fn tenant_rows_and_org_filter_helpers() {
    let v = json(
        r#"{"tenants":[
           {"id":"t1","name":"Alpha","organizationId":"org-a"},
           {"id":"t2","organization_id":"org-b"}
        ]}"#,
    );
    let rows = tenant_rows_from_body(&v);
    assert_eq!(rows.len(), 2);
    let t1 = rows.iter().find(|r| r.id == "t1").unwrap();
    let t2 = rows.iter().find(|r| r.id == "t2").unwrap();
    assert_eq!(t1.organization_id.as_deref(), Some("org-a"));
    assert_eq!(t2.organization_id.as_deref(), Some("org-b"));
    assert_eq!(t1.organization_ids.as_deref(), Some(&["org-a".to_string()][..]));
    assert_eq!(t2.organization_ids.as_deref(), Some(&["org-b".to_string()][..]));

    let (m, _) = filter_tenants_for_organization(&rows, "org-a");
    assert_eq!(m.len(), 1);
    assert_eq!(m[0].id, "t1");
}

#[test]
fn filter_without_org_links_returns_everyone() {
    let rows = vec![row("a", None, None), row("b", None, None)];
    let (all, _) = filter_tenants_for_organization(&rows, "anything");
    assert_eq!(all.len(), 2);
}

#[test]
fn filter_with_declared_org_metadata_no_overlap_returns_empty() {
    let rows = vec![
        row("a", Some("org-1"), Some(vec!["org-1"])),
        row("b", Some("org-2"), Some(vec!["org-2"])),
    ];
    let (narrow, hint) = filter_tenants_for_organization(&rows, "missing-org");
    assert!(narrow.is_empty());
    assert!(hint.unwrap().contains("missing-org"));
}

#[test]
fn filter_organization_ids_excludes_grant_only_tenant() {
    let v = json(
        r#"{"tenants":[
           {"id":"linked","organizationIds":["org-demo"]},
           {"id":"grant_only","organizationIds":[]}
        ]}"#,
    );
    let rows = tenant_rows_from_body(&v);
    let (picked, _) = filter_tenants_for_organization(&rows, "org-demo");
    assert_eq!(picked.len(), 1);
    assert_eq!(picked[0].id, "linked");
}

#[test]
fn browse_strict_empty_when_every_row_only_has_empty_organization_ids() {
    let v = json(
        r#"{"tenants":[
           {"id":"a","organizationIds":[]},
           {"id":"b","organizationIds":[]}
        ]}"#,
    );
    let rows = tenant_rows_from_body(&v);
    let (narrow, hint) = filter_tenants_for_organization_for_browse(&rows, "org-x");
    assert!(narrow.is_empty());
    assert!(hint.unwrap().contains("organizationIds"));

    let (legacy, _) = filter_tenants_for_organization(&rows, "org-x");
    assert_eq!(legacy.len(), 2);
}

#[test]
fn tenants_error_preview_extracts_rest_detail_json() {
    let body = r#"{"error":"Failed to fetch tenants","detail":"upstream: graphql rejected"}"#;
    let s = tenants_error_body_preview(403, body);
    assert!(s.contains("403"), "expected status in preview: {s}");
    assert!(s.contains("Failed to fetch tenants"), "{s}");
    assert!(s.contains("graphql rejected"), "{s}");
}

#[test]
fn tenant_rows_sorted_and_deduplicated() {
    let v = json(
        r#"{"tenants":[
           {"id":"z","name":"beta"},
           {"id":"y","name":"Alpha"},
           {"id":"z","name":"beta"}
        ]}"#,
    );
    let rows = tenant_rows_from_body(&v);
    let ids: Vec<&str> = rows.iter().map(|r| r.id.as_str()).collect();
    assert_eq!(ids, vec!["y", "z"]);
}

#[test]
fn filter_is_idempotent_on_example() {
    let rows = vec![
        row("a", Some("org-1"), Some(vec!["org-1"])),
        row("b", Some("org-2"), Some(vec!["org-2"])),
        row("c", None, None),
    ];
    let (once, _) = filter_tenants_for_organization(&rows, "org-1");
    let (twice, _) = filter_tenants_for_organization(&once, "org-1");
    assert_eq!(once, twice);
    assert_eq!(once.len(), 1);
    assert_eq!(once[0].id, "a");
}

#[test]
fn compose_tenants_report_shows_error_and_note() {
    let fetched: Result<Json, String> = Err("tenants 500 — boom".to_string());
    let r = compose_tenants_report(
        "https://api.example.com/",
        None,
        &fetched,
        Some("credentials file: /tmp/c".to_string()),
    );
    assert_eq!(
        r,
        "── Tenants (https://api.example.com/v1/tenants) ──\n  (could not load) tenants 500 — boom\n\ncredentials file: /tmp/c"
    );
}
