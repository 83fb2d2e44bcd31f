use authdog_cli::browse::{BrowseError, BrowseSession, BrowseStep};
use authdog_cli::cli_login::CliAuthConfig;
use authdog_cli::commands::{
    classify_submit, cmds, help_text, login_message, not_logged_in_message, slash_palette_indices,
    status_text, SubmitCommand, TenantArg,
};
use authdog_cli::commands::{tenant_selection, tenant_selection_message, TenantSelection};
use authdog_cli::json::parse_json_str;
use authdog_cli::organizations::OrgRow;
use authdog_cli::tenants::TenantRow;

fn tenant(id: &str, orgs: Option<Vec<&str>>) -> TenantRow {
    TenantRow {
        id: id.into(),
        name: None,
        organization_id: None,
        organization_ids: orgs.map(|v| v.into_iter().map(|s| s.to_string()).collect()),
    }
}

#[test]
fn palette_matches_prefix_ignoring_case() {
    assert_eq!(slash_palette_indices("/TEN"), Some(vec![4, 5]));
    assert_eq!(slash_palette_indices("  /").map(|v| v.len()), Some(cmds().len()));
    assert_eq!(slash_palette_indices("/te nants"), None);
    assert_eq!(slash_palette_indices("tenants"), None);
    assert_eq!(slash_palette_indices("/zzz"), Some(vec![]));
}

#[test]
fn submitted_lines_are_classified() {
    assert_eq!(classify_submit("   "), SubmitCommand::Empty);
    assert_eq!(classify_submit("/Q"), SubmitCommand::Quit);
    assert_eq!(classify_submit("/"), SubmitCommand::Help);
    assert_eq!(classify_submit("/me"), SubmitCommand::Whoami);
    assert_eq!(classify_submit("/orgs"), SubmitCommand::Organizations);
    assert_eq!(classify_submit("/navigator"), SubmitCommand::Browse);
    assert_eq!(classify_submit("/tenant"), SubmitCommand::Tenant(TenantArg::Show));
    assert_eq!(classify_submit("/tenant CLEAR"), SubmitCommand::Tenant(TenantArg::Clear));
    assert_eq!(
        classify_submit("/tenant 00000000-0000-4000-8000-000000000001"),
        SubmitCommand::Tenant(TenantArg::Select("00000000-0000-4000-8000-000000000001".into()))
    );
    assert_eq!(classify_submit("/tenant nope"), SubmitCommand::Tenant(TenantArg::Invalid("nope".into())));
    assert_eq!(classify_submit("/tenant a b"), SubmitCommand::Tenant(TenantArg::Usage));
    assert_eq!(classify_submit("/bogus arg"), SubmitCommand::Unknown("/bogus".into()));
    assert_eq!(classify_submit("  hello  "), SubmitCommand::Echo("hello".into()));
    assert!(classify_submit("/tenants").keeps_listing());
    assert!(!classify_submit("/help").keeps_listing());
    assert!(classify_submit("/whoami").keeps_whoami_output());
}

#[test]
fn help_and_messages() {
    let h = help_text();
    assert!(h.starts_with("/help           — Show available commands\n/login"), "{h}");
    assert_eq!(h.lines().count(), cmds().len());
    let cfg = CliAuthConfig::new("https://id.example/", "env");
    assert_eq!(
        login_message(&cfg),
        "Opening browser (https://id.example/signin/env …).\nAUTHDOG_IDENTITY_ORIGIN overrides the host (default: https://identity.authdog.com)."
    );
    assert_eq!(
        not_logged_in_message("tenants"),
        "Not logged in (/tenants).\nTry /login, or use /status to confirm files."
    );
    assert_eq!(
        status_text("/c", "abc", "rr"),
        "Session file: /c\nAccess token preview: abc… (3 chars)\nRefresh token: 2 chars"
    );
    let long = "x".repeat(40);
    assert!(status_text("/c", &long, "").contains(&format!("{}… (40 chars)", "x".repeat(28))));
}

#[test]
fn browse_navigation() {
    let orgs = vec![OrgRow { id: "org-a".into(), name: Some("Acme".into()) }];
    let tenants = vec![tenant("t1", Some(vec!["org-a"])), tenant("t2", Some(vec!["org-b"]))];
    let mut s = BrowseSession::begin("tok".into(), None, orgs, tenants.clone());
    assert!(matches!(s.step, BrowseStep::PickOrganization));
    assert_eq!(s.activate_tenant_choice(0), Err(BrowseError::NotAtTenantPicker));
    assert_eq!(s.activate_organization(3, &tenants), Err(BrowseError::OrganizationIndex));
    assert_eq!(s.activate_organization(0, &tenants), Ok(None));
    match &s.step {
        BrowseStep::PickTenant { org_summary, tenants } => {
            assert_eq!(org_summary, "Acme   org-a");
            assert_eq!(tenants.len(), 1);
        }
        _ => panic!("expected the tenant step"),
    }
    assert_eq!(s.activate_tenant_choice(0), Ok("t1".to_string()));
    assert_eq!(s.activate_tenant_choice(1), Err(BrowseError::TenantIndex));
    assert!(s.pop_to_organizations());
    assert!(matches!(s.step, BrowseStep::PickOrganization));
    assert!(!s.pop_to_organizations());

    let mut flat = BrowseSession::begin("tok".into(), None, vec![], tenants.clone());
    match &flat.step {
        BrowseStep::PickTenant { org_summary, tenants } => {
            assert_eq!(org_summary, "All tenants (no organizations)");
            assert_eq!(tenants.len(), 2);
        }
        _ => panic!("expected the tenant step"),
    }
    assert!(!flat.pop_to_organizations());
}

#[test]
fn tenant_selection_checks_the_listing() {
    let listing = Ok(parse_json_str(r#"{"tenants":[{"id":"t1"},{"id":"t2"}]}"#).unwrap());
    assert_eq!(tenant_selection("t2", &listing), TenantSelection::Accepted { warning: None });
    let refused = tenant_selection("t9", &listing);
    assert_eq!(refused, TenantSelection::NotListed);
    assert_eq!(
        tenant_selection_message("t9", &refused),
        "Tenant id not found in /tenants listing:\nt9\nRun `/tenants` for ids."
    );
    let failed = Err("tenants 500 Internal Server Error — x".to_string());
    let d = tenant_selection("t9", &failed);
    assert_eq!(
        tenant_selection_message("t9", &d),
        "Current tenant set to:\nt9\n(warning: could not verify against /tenants: tenants 500 Internal Server Error — x)"
    );
}

#[test]
fn status_selection_lines() {
    assert_eq!(
        authdog_cli::commands::current_selection_lines(Some("org-1"), None),
        "\nCurrent organization: org-1\nCurrent tenant: (none)"
    );
    assert_eq!(
        authdog_cli::commands::current_selection_lines(Some(""), Some("t")),
        "\nCurrent organization: (none)\nCurrent tenant: t"
    );
}

#[test]
fn palette_indices_are_increasing_prefix_matches() {
    assert!(slash_palette_indices("tenants").is_none());
    assert!(slash_palette_indices("/ten ants").is_none());
    let v = slash_palette_indices("  /TEN").unwrap();
    assert!(v.windows(2).all(|w| w[0] < w[1]));
    let all = cmds();
    for (i, c) in all.iter().enumerate() {
        assert_eq!(v.contains(&i), c.name.starts_with("ten"));
    }
    assert_eq!(slash_palette_indices("/").unwrap().len(), all.len());
}

#[test]
fn status_text_cuts_multibyte_token_at_boundary() {
    let t = "é".repeat(20);
    assert!(status_text("/c", &t, "").contains(&format!("{}… (40 chars)", "é".repeat(14))));
}

#[test]
fn tenant_argument_accepts_every_uuid_form() {
    for form in [
        "00000000-0000-4000-8000-000000000001",
        "0000000000004000800000000000000A",
        "{00000000-0000-4000-8000-000000000001}",
        "URN:uuid:00000000-0000-4000-8000-00000000000f",
    ] {
        assert_eq!(
            classify_submit(&format!("/tenant {form}")),
            SubmitCommand::Tenant(TenantArg::Select(form.to_string())),
            "{form}"
        );
    }
    for bad in ["0000000g-0000-4000-8000-000000000001", "00000000-0000-4000-8000-00000000001", "{00000000-0000-4000-8000-000000000001)"] {
        assert_eq!(
            classify_submit(&format!("/tenant {bad}")),
            SubmitCommand::Tenant(TenantArg::Invalid(bad.to_string())),
            "{bad}"
        );
    }
}
