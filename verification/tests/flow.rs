use authdog_cli::shell::{WhoamiJsonTab, WhoamiOutputPane};
use authdog_cli::browse::{BrowseSession, BrowseStep};
use authdog_cli::cli_login::CliAuthConfig;
use authdog_cli::commands::{classify_submit, NO_CURRENT_TENANT, TENANT_CLEARED};
use authdog_cli::flow::{
    apply_session_change, browse_enter, browse_start, listing_choose, listing_enter_step,
    on_browse_organizations, on_browse_tenants, on_cleared, on_login, on_organization_tenants,
    on_projects, on_saved, on_tenant_checked, on_tenants_listed, submit_step, AfterSave,
    BrowseStart, Listing, ListingDecision, ListingKind, SessionChange, SessionRecord,
    ShellContext, ShellState, SubmitAction,
};
use authdog_cli::json::{parse_json_str, Json};
use authdog_cli::organizations::OrgRow;
use authdog_cli::tenants::TenantRow;

fn json(s: &str) -> Json {
    parse_json_str(s).expect("valid JSON")
}

fn ctx() -> ShellContext {
    ShellContext {
        api_origin: "https://api.example.com".to_string(),
        credentials_note: Some("credentials file: /c".to_string()),
        credentials_path: Some("/c".to_string()),
        auth: CliAuthConfig::new("https://id.example.com", "env-1"),
    }
}

fn record(tenant: Option<&str>, org: Option<&str>) -> SessionRecord {
    SessionRecord {
        access_token: "tok".to_string(),
        refresh_token: "ref".to_string(),
        current_organization_id: org.map(str::to_string),
        current_tenant_id: tenant.map(str::to_string),
    }
}

fn tenant(id: &str, name: Option<&str>) -> TenantRow {
    TenantRow { id: id.into(), name: name.map(str::to_string), organization_id: None, organization_ids: None }
}

fn tenant_listing(rows: Vec<TenantRow>) -> Listing {
    Listing {
        kind: ListingKind::Tenants,
        tenants: rows,
        organizations: Vec::new(),
        endpoint: "https://api.example.com/v1/tenants".to_string(),
        credentials_note: None,
    }
}

#[test]
fn projects_without_current_tenant_asks_nothing() {
    let (s, a) = submit_step(ShellState::new(), classify_submit("/projects"), Ok(Some(record(None, None))), &ctx());
    assert!(matches!(a, SubmitAction::Idle));
    assert_eq!(s.status.as_deref(), Some(NO_CURRENT_TENANT));
    assert!(!s.status_err);
}

#[test]
fn projects_with_current_tenant_fetches_its_projects() {
    let (_, a) = submit_step(ShellState::new(), classify_submit("/projects"), Ok(Some(record(Some("t-1"), None))), &ctx());
    match a {
        SubmitAction::FetchProjects { access_token, tenant_id } => {
            assert_eq!(access_token, "tok");
            assert_eq!(tenant_id, "t-1");
        }
        other => panic!("unexpected {other:?}"),
    }
}

#[test]
fn session_command_without_session_says_not_logged_in() {
    let (s, a) = submit_step(ShellState::new(), classify_submit("/tenants"), Ok(None), &ctx());
    assert!(matches!(a, SubmitAction::Idle));
    assert_eq!(
        s.status.as_deref(),
        Some("Not logged in (/tenants).\nTry /login, or use /status to confirm files.")
    );
    let (s, _) = submit_step(ShellState::new(), classify_submit("/whoami"), Err("bad file".into()), &ctx());
    assert_eq!(s.status.as_deref(), Some("bad file"));
    assert!(s.status_err);
}

#[test]
fn echo_and_unknown_commands() {
    let (s, _) = submit_step(ShellState::new(), classify_submit("hello"), Ok(None), &ctx());
    assert_eq!(s.status.as_deref(), Some("hello"));
    let (s, _) = submit_step(ShellState::new(), classify_submit("/nope x"), Ok(None), &ctx());
    assert_eq!(s.status.as_deref(), Some("unknown command: /nope"));
    assert!(s.status_err);
    let (s, _) = submit_step(ShellState::new(), classify_submit("/quit"), Ok(None), &ctx());
    assert!(s.quit);
}

#[test]
fn status_shows_preview_for_multibyte_token() {
    let mut r = record(None, Some("org-1"));
    r.access_token = "é".repeat(20);
    let (s, _) = submit_step(ShellState::new(), classify_submit("/status"), Ok(Some(r)), &ctx());
    let text = s.status.unwrap();
    assert!(text.starts_with(&format!(
        "Session file: /c\nAccess token preview: {}… (40 chars)\nRefresh token: 3 chars",
        "é".repeat(14)
    )));
    assert!(text.ends_with("\nCurrent organization: org-1\nCurrent tenant: (none)"));
}

#[test]
fn other_commands_close_the_listing() {
    let mut st = ShellState::new();
    st.listing = Some(tenant_listing(vec![tenant("a", None)]));
    let (st, _) = submit_step(st, classify_submit("/tenants"), Ok(Some(record(None, None))), &ctx());
    assert!(st.listing.is_some());
    let (st, _) = submit_step(st, classify_submit("/help"), Ok(None), &ctx());
    assert!(st.listing.is_none());
}

#[test]
fn tenant_clear_saves_without_tenant() {
    let (_, a) = submit_step(ShellState::new(), classify_submit("/tenant clear"), Ok(Some(record(Some("t"), None))), &ctx());
    match a {
        SubmitAction::SaveSession { change, then } => {
            let saved = apply_session_change(Some(record(Some("t"), Some("o"))), change);
            assert_eq!(saved.current_tenant_id, None);
            assert_eq!(saved.current_organization_id.as_deref(), Some("o"));
            let (s, _) = on_saved(ShellState::new(), then, Ok(()));
            assert_eq!(s.status.as_deref(), Some(TENANT_CLEARED));
        }
        other => panic!("unexpected {other:?}"),
    }
}

#[test]
fn tenant_select_checks_listing_first() {
    let tid = "00000000-0000-4000-8000-000000000001";
    let (_, a) = submit_step(ShellState::new(), classify_submit(&format!("/tenant {tid}")), Ok(Some(record(None, None))), &ctx());
    assert!(matches!(a, SubmitAction::VerifyTenant { .. }));
    let listed = json(r#"{"tenants":[{"id":"other"}]}"#);
    let (s, a) = on_tenant_checked(ShellState::new(), tid.to_string(), &Ok(listed));
    assert!(matches!(a, SubmitAction::Idle));
    assert!(s.status_err);
    let listed = json(&format!(r#"{{"tenants":[{{"id":"{tid}"}}]}}"#));
    let (_, a) = on_tenant_checked(ShellState::new(), tid.to_string(), &Ok(listed));
    match a {
        SubmitAction::SaveSession { change: SessionChange::Tenant(Some(id)), then: AfterSave::Report { ok } } => {
            assert_eq!(id, tid);
            assert_eq!(ok, format!("Current tenant set to:\n{tid}"));
        }
        other => panic!("unexpected {other:?}"),
    }
}

#[test]
fn listing_enter_decisions() {
    assert_eq!(listing_enter_step(ListingKind::Tenants, 0, 0), ListingDecision::Empty);
    assert_eq!(listing_enter_step(ListingKind::Tenants, 2, 2), ListingDecision::InvalidSelection);
    assert_eq!(listing_enter_step(ListingKind::Tenants, 2, 1), ListingDecision::SaveTenant(1));
    assert_eq!(listing_enter_step(ListingKind::Organizations, 2, 0), ListingDecision::SaveOrganization(0));
}

#[test]
fn listing_choose_organization_clears_tenant() {
    let mut st = ShellState::new();
    st.listing = Some(Listing {
        kind: ListingKind::Organizations,
        tenants: Vec::new(),
        organizations: vec![OrgRow { id: "o-1".into(), name: Some("Acme".into()) }],
        endpoint: "https://api.example.com/v1/organizations".into(),
        credentials_note: None,
    });
    let (s, a) = listing_choose(st, 0);
    assert!(s.listing.is_none());
    match a {
        SubmitAction::SaveSession { change, then } => {
            let saved = apply_session_change(Some(record(Some("t"), None)), change);
            assert_eq!(saved.current_organization_id.as_deref(), Some("o-1"));
            assert_eq!(saved.current_tenant_id, None);
            let (s, _) = on_saved(ShellState::new(), then, Err("disk full".into()));
            assert_eq!(s.status.as_deref(), Some("Could not save organization:\ndisk full"));
            assert!(s.status_err);
        }
        other => panic!("unexpected {other:?}"),
    }
}

#[test]
fn listing_choose_out_of_range_and_empty() {
    let mut st = ShellState::new();
    st.listing = Some(tenant_listing(vec![tenant("a", None)]));
    let (s, a) = listing_choose(st, 5);
    assert!(matches!(a, SubmitAction::Idle));
    assert_eq!(
        s.status.as_deref(),
        Some("Tenants (https://api.example.com/v1/tenants)\n(Invalid selection; run /tenants.)")
    );
    let mut st = ShellState::new();
    st.listing = Some(tenant_listing(Vec::new()));
    let (s, _) = listing_choose(st, 0);
    assert_eq!(s.status.as_deref(), Some("Tenants (https://api.example.com/v1/tenants)\n(No rows.)"));
    assert!(!s.status_err);
}

#[test]
fn browse_start_decisions() {
    assert_eq!(browse_start(&Ok(Vec::new())), BrowseStart::FetchTenants);
    assert_eq!(browse_start(&Ok(vec![OrgRow { id: "o".into(), name: None }])), BrowseStart::Begin);
    assert_eq!(
        browse_start(&Err("boom".into())),
        BrowseStart::Fail("Browse could not load listings:\nboom".into())
    );
}

#[test]
fn browse_without_orgs_lists_all_tenants() {
    let (s, a) = on_browse_organizations(ShellState::new(), &ctx(), "tok".into(), &Ok(json(r#"{"organizations":[]}"#)));
    assert!(s.browse.is_none());
    assert!(matches!(a, SubmitAction::BrowseAllTenants { .. }));
    let s = on_browse_tenants(s, &ctx(), "tok".into(), &Ok(json(r#"{"tenants":[{"id":"t-1"}]}"#)));
    let b = s.browse.expect("navigator");
    match b.step {
        BrowseStep::PickTenant { tenants, .. } => assert_eq!(tenants.len(), 1),
        _ => panic!("expected tenant step"),
    }
}

#[test]
fn browse_out_of_range_org_sends_nothing() {
    let mut st = ShellState::new();
    st.browse = Some(BrowseSession::begin(
        "tok".into(),
        None,
        vec![OrgRow { id: "o".into(), name: None }],
        Vec::new(),
    ));
    let (s, a) = browse_enter(st, 3);
    assert!(matches!(a, SubmitAction::Idle));
    assert!(s.status_err);
    let (_, a) = browse_enter(s, 0);
    assert!(matches!(a, SubmitAction::FetchOrganizationTenants { org_index: 0, .. }));
}

#[test]
fn browse_org_pick_without_links_shows_no_tenants() {
    let mut st = ShellState::new();
    st.browse = Some(BrowseSession::begin(
        "tok".into(),
        None,
        vec![OrgRow { id: "o".into(), name: None }],
        Vec::new(),
    ));
    let body = json(r#"{"tenants":[{"id":"t-1","organizationIds":[]}]}"#);
    let s = on_organization_tenants(st, 0, &Ok(body));
    assert!(s.status.is_some());
    match s.browse.expect("navigator").step {
        BrowseStep::PickTenant { tenants, .. } => assert!(tenants.is_empty()),
        _ => panic!("expected tenant step"),
    }
}

#[test]
fn browse_tenant_choice_saves_then_reports_projects() {
    let mut st = ShellState::new();
    st.browse = Some(BrowseSession::begin("tok".into(), None, Vec::new(), vec![tenant("t-9", None)]));
    let (s, a) = browse_enter(st, 0);
    let (change, then) = match a {
        SubmitAction::SaveSession { change, then } => (change, then),
        other => panic!("unexpected {other:?}"),
    };
    let saved = apply_session_change(None, change);
    assert_eq!(saved.current_tenant_id.as_deref(), Some("t-9"));
    let (s, a) = on_saved(s, then, Ok(()));
    assert!(s.browse.is_none());
    match a {
        SubmitAction::FetchProjects { access_token, tenant_id } => {
            assert_eq!(access_token, "tok");
            assert_eq!(tenant_id, "t-9");
            let s = on_projects(s, &ctx(), &tenant_id, &Err("HTTP 500".into()));
            assert!(s.status_err);
        }
        other => panic!("unexpected {other:?}"),
    }
}

#[test]
fn tenants_listing_opens_picker() {
    let fetched = Ok(json(r#"{"tenants":[{"id":"b"},{"id":"a"}]}"#));
    let s = on_tenants_listed(ShellState::new(), &ctx(), &None, &fetched);
    let l = s.listing.expect("picker");
    assert_eq!(l.row_count(), 2);
    assert_eq!(l.endpoint, "https://api.example.com/v1/tenants");
    assert!(s.status.is_none());
}

#[test]
fn login_and_logout_outcomes() {
    let (s, a) = on_login(ShellState::new(), Err("cancelled".into()));
    assert_eq!(s.status.as_deref(), Some("Login failed:\ncancelled"));
    assert!(matches!(a, SubmitAction::Idle));
    let (_, a) = on_login(ShellState::new(), Ok(("a".into(), "r".into())));
    match a {
        SubmitAction::SaveSession { change, then } => {
            let saved = apply_session_change(Some(record(Some("t"), Some("o"))), change);
            assert_eq!(saved.access_token, "a");
            assert_eq!(saved.current_tenant_id.as_deref(), Some("t"));
            let (s, _) = on_saved(ShellState::new(), then, Ok(()));
            assert_eq!(s.status.as_deref(), Some("\u{2714} Signed in"));
        }
        other => panic!("unexpected {other:?}"),
    }
    let s = on_cleared(ShellState::new(), Err("denied".into()));
    assert_eq!(s.status.as_deref(), Some("denied"));
    assert!(s.status_err);
}

#[test]
fn blank_line_keeps_panes_and_clears_status() {
    let mut st = ShellState::new();
    st.status = Some("old".into());
    st.status_err = true;
    st.listing = Some(tenant_listing(vec![tenant("a", None)]));
    st.whoami = Some(WhoamiOutputPane {
        endpoint_note: "e".into(),
        pretty_json: "p".into(),
        raw_json: "r".into(),
        credentials_note: None,
        tab: WhoamiJsonTab::Pretty,
    });
    let (s, a) = submit_step(st, classify_submit("   "), Ok(None), &ctx());
    assert!(matches!(a, SubmitAction::Idle));
    assert!(s.status.is_none());
    assert!(!s.status_err);
    assert!(s.listing.is_some());
    assert!(s.whoami.is_some());
    let s = authdog_cli::flow::toggle_whoami_tab(s);
    assert_eq!(s.whoami.as_ref().unwrap().tab, WhoamiJsonTab::Raw);
    let s = authdog_cli::flow::toggle_whoami_tab(s);
    assert_eq!(s.whoami.as_ref().unwrap().tab, WhoamiJsonTab::Pretty);
    assert_eq!(s.whoami.unwrap().pretty_json, "p");
}
