use authdog_cli::session_store::{credentials_path, StoredSession};
use authdog_cli::shell::{
    append_credentials_footer, pick_one_title_tail, tenant_row_primary, trimmed_credentials_note,
    truncate_pad, truncate_vis, wheel_scroll_lines, WhoamiJsonTab, WhoamiOutputPane,
};
use authdog_cli::tenants::TenantRow;

#[test]
fn wheel_scroll_is_a_fifth_at_least_one() {
    assert_eq!(wheel_scroll_lines(0), 1);
    assert_eq!(wheel_scroll_lines(4), 1);
    assert_eq!(wheel_scroll_lines(10), 2);
    assert_eq!(wheel_scroll_lines(100), 20);
}

#[test]
fn tenant_labels() {
    let mut t = TenantRow { id: "t1".into(), name: Some("  Acme ".into()), organization_id: None, organization_ids: None };
    assert_eq!(tenant_row_primary(&t), "Acme (t1)");
    t.name = Some("t1".into());
    assert_eq!(tenant_row_primary(&t), "t1");
    t.name = None;
    assert_eq!(tenant_row_primary(&t), "t1");
}

#[test]
fn truncation_by_display_width() {
    assert_eq!(truncate_vis("hello", 5), "hello");
    assert_eq!(truncate_vis("hello", 3), "he…");
    assert_eq!(truncate_vis("日本語", 4), "日…");
    assert_eq!(truncate_pad("ab", 4), "ab  ");
    assert_eq!(truncate_pad("abcdef", 4), "abc…");
}

#[test]
fn listing_titles_and_footers() {
    let note = Some("  credentials file: /c  ".to_string());
    assert_eq!(trimmed_credentials_note(note.as_ref()), Some("credentials file: /c".to_string()));
    assert_eq!(trimmed_credentials_note(Some(&"   ".to_string())), None);
    assert_eq!(
        pick_one_title_tail("https://x/v1/tenants", 3, note.as_ref()),
        " (https://x/v1/tenants) · 3 rows · pick one · credentials file: /c"
    );
    assert_eq!(pick_one_title_tail("e", 0, None), " (e) · 0 rows · pick one");
    let mut text = "body".to_string();
    append_credentials_footer(&mut text, note.as_ref());
    assert_eq!(text, "body\n\ncredentials file: /c");
    let mut same = "body".to_string();
    append_credentials_footer(&mut same, None);
    assert_eq!(same, "body");
}

#[test]
fn whoami_pane_text() {
    let mut p = WhoamiOutputPane {
        endpoint_note: "https://api/v1/userinfo".into(),
        pretty_json: "Meta".into(),
        raw_json: "{}".into(),
        credentials_note: Some(" note ".into()),
        tab: WhoamiJsonTab::Pretty,
    };
    assert_eq!(p.composed_for_styling(), "── Identity (https://api/v1/userinfo) ──\nMeta\n\n note ");
    p.tab = WhoamiJsonTab::Raw;
    p.credentials_note = Some("  ".into());
    assert_eq!(p.composed_for_styling(), "── Identity (https://api/v1/userinfo) ──\n{}");
}

#[test]
fn credentials_file_location() {
    assert_eq!(credentials_path("/home/a/.config/authdog-cli"), "/home/a/.config/authdog-cli/credentials.json");
    assert_eq!(credentials_path("/cfg/"), "/cfg/credentials.json");
    assert_eq!(credentials_path(""), "credentials.json");
    let s = StoredSession { access_token: "a".into(), refresh_token: "r".into() };
    assert_eq!(s.clone().access_token, "a");
}
