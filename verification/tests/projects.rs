use authdog_cli::json::{parse_json_str, Json};
use authdog_cli::projects::{compose_projects_report, projects_endpoint, projects_error_body_preview};

#[test]
fn projects_cf_1003_detail_appends_ops_hint() {
    let body = r#"{"error":"Failed","detail":"403: error code: 1003 | 403: error code: 1003"}"#;
    let s = projects_error_body_preview(403, body);
    assert!(s.contains("error code: 1003"));
    assert!(s.contains("Hint (ops):"));
}

#[test]
fn projects_error_preview_extracts_rest_detail_json() {
    let body = r#"{"error":"Failed to fetch projects","detail":"upstream: graphql rejected"}"#;
    let s = projects_error_body_preview(403, body);
    assert!(s.contains("403"), "expected status in preview: {s}");
    assert!(s.contains("Failed to fetch projects"), "{s}");
}

#[test]
fn projects_endpoint_under_tenant() {
    assert_eq!(
        projects_endpoint("https://api.example.com/", "tid"),
        "https://api.example.com/v1/tenants/tid/projects"
    );
}

#[test]
fn projects_report_pretty_prints_body() {
    let body: Result<Json, String> = Ok(parse_json_str(r#"{"projects":[]}"#).unwrap());
    let r = compose_projects_report("https://api.example.com", "tid", &body, None);
    assert_eq!(
        r,
        "── Projects (https://api.example.com/v1/tenants/tid/projects) ──\n{\n  \"projects\": []\n}"
    );
}
