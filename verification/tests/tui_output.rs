use authdog_cli::tui_output::{highlight_json_line, styled_status_lines, SpanRole};

#[test]
fn identity_separator_switches_highlighting() {
    let s = "── Identity (https://example/v1/userinfo) ──\n{\"x\":1}\n";
    let lines = styled_status_lines(s);
    assert!(lines.len() >= 2);
    assert!(lines[1].iter().any(|sp| sp.text.contains('\"')), "{}", lines.len());
}

#[test]
fn tenants_separator_switches_highlighting() {
    let s = "── Tenants (https://example/v1/tenants) ──\n{\"total\":1}\n";
    let lines = styled_status_lines(s);
    assert!(lines.len() >= 2);
    assert!(lines[1].iter().any(|sp| sp.text.contains("\"total\"")));
}

#[test]
fn organizations_separator_switches_highlighting() {
    let s = "── Organizations (https://example/v1/organizations) ──\n{\"organizations\":[{\"name\":\"Acme\"}]}\n";
    let lines = styled_status_lines(s);
    assert!(lines.len() >= 2);
    assert!(lines[1].iter().any(|sp| sp.text.contains("\"name\"")));
}

#[test]
fn projects_separator_switches_highlighting() {
    let s = "── Projects (https://example/v1/tenants/tid/projects) ──\n{\"projects\":[]}\n";
    let lines = styled_status_lines(s);
    assert!(lines.len() >= 2);
    assert!(lines[1].iter().any(|sp| sp.text.contains("projects")));
}

#[test]
fn heavy_check_line_splits_green_then_body() {
    let lines = styled_status_lines("\u{2714} Signed in");
    assert_eq!(lines.len(), 1);
    assert!(lines[0].len() >= 2);
    assert!(lines[0][0].text.contains('\u{2714}'));
    assert_eq!(lines[0][1].text, "Signed in");
}

#[test]
fn claim_colon_splits_key_value() {
    let input = "── Access token payload (decoded locally · signature NOT verified · reference only) ──\n  sub:  google:user\n\ncredentials file: /tmp/x\n";
    let styled = styled_status_lines(input);
    let row = styled
        .iter()
        .find(|l| l.iter().any(|sp| sp.text.contains("google:user")))
        .expect("sub line");
    assert!(row.iter().any(|sp| sp.text.contains("sub:")));
}

#[test]
fn json_line_roles() {
    let cs: Vec<char> = "  \"k\": 12, \"b\": true".chars().collect();
    let spans = highlight_json_line(&cs);
    let joined: String = spans.iter().map(|s| s.text.as_str()).collect();
    assert_eq!(joined, "  \"k\": 12, \"b\": true");
    assert!(spans.iter().any(|s| s.text == "\"k\"" && s.role == SpanRole::JsonKey));
    assert!(spans.iter().any(|s| s.text == "12" && s.role == SpanRole::JsonNumber));
    assert!(spans.iter().any(|s| s.text == "true" && s.role == SpanRole::JsonKeyword));
}

#[test]
fn banner_line_is_separator() {
    let lines = styled_status_lines("── Tenants (x) ──");
    assert_eq!(lines.len(), 1);
    assert!(lines[0].iter().any(|s| s.role == SpanRole::Separator));
}

#[test]
fn keyword_needs_a_word_boundary() {
    let cs: Vec<char> = "trueish".chars().collect();
    let spans = highlight_json_line(&cs);
    assert!(!spans.iter().any(|s| s.role == SpanRole::JsonKeyword), "{}", spans.len());
    let cs: Vec<char> = "[null]".chars().collect();
    let spans = highlight_json_line(&cs);
    assert!(spans.iter().any(|s| s.text == "null" && s.role == SpanRole::JsonKeyword));
}

#[test]
fn json_line_spans_concatenate_to_line() {
    let line = r#"  "key": [1, -2.5e3, true, null, "s\"x"], nope"#;
    let cs: Vec<char> = line.chars().collect();
    let spans = highlight_json_line(&cs);
    let joined: String = spans.iter().map(|s| s.text.as_str()).collect();
    assert_eq!(joined, line);
    assert!(spans.iter().any(|s| s.role == SpanRole::JsonKey && s.text == "\"key\""));
}
