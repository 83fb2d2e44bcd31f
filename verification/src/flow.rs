//! The shell's decisions as a state machine. A submitted command, an Enter in a picker,
//! or the outcome of a request or of a write of the saved session moves the shell state
//! and names the next piece of outside work; the terminal front end performs it and hands
//! the outcome back.

use vstd::prelude::*;

use crate::api::{endpoint, endpoint_url, outcome_view, spec_report};
use crate::browse::{
    no_org_summary, spec_choose_org, BrowseError, BrowseSession, BrowseStep, BrowseStepView,
    BrowseView,
};
use crate::cli_login::CliAuthConfig;
use crate::commands::{
    current_selection_lines, current_tenant_message, help_text, invalid_tenant_message,
    login_message, not_logged_in_message, selection_line, spec_help_text, spec_listed_ids,
    spec_login_message, spec_status_text, status_text, tenant_selection,
    tenant_selection_message, unknown_command_message, unverified_warning, SubmitCommand,
    SubmitView, TenantArg, TenantArgView, TenantSelection, NOT_LOGGED_IN_STATUS,
    NO_CURRENT_TENANT, SIGNED_OUT, TENANT_CLEARED, TENANT_USAGE,
};
use crate::identity::{compose_whoami_report, format_identity_json_pair, spec_identity_pretty, spec_whoami_report};
use crate::json::{spec_json_pretty, Json};
use crate::organizations::{
    compose_organizations_report, organization_rows_from_body, orgs_view, spec_display_primary,
    spec_org_rows, OrgRow, OrgRowView, ORGANIZATIONS_PATH,
};
use crate::projects::{compose_projects_report, projects_path};
use crate::shell::{
    listing_choice_message, listing_empty_message, listing_invalid_selection_message,
    listing_save_failed_message, spec_tenant_row_primary, spec_with_footer, tenant_row_primary,
    PaneView, WhoamiJsonTab, WhoamiOutputPane,
};
use crate::tenants::{
    compose_tenants_report, rows_view, spec_filter, spec_scope, spec_tenant_rows,
    spec_tenants_list_url, tenant_listing_rows_from_body, tenant_rows_from_body,
    tenants_list_url_for_display, tenants_organization_scope, TenantOrgFilterMode, TenantRow,
    TenantRowView,
};
use crate::text::{chars_of, opt_view, push_str, string_of, trim_end_char_seq};
use crate::whoami::userinfo_endpoint_display;

verus! {

// ---------------------------------------------------------------------------
// The saved session
// ---------------------------------------------------------------------------

/// What `credentials.json` holds: the tokens, and the organisation and tenant kept
/// current between runs.
#[derive(Clone, Debug)]
pub struct SessionRecord {
    pub access_token: String,
    pub refresh_token: String,
    pub current_organization_id: Option<String>,
    pub current_tenant_id: Option<String>,
}

/// A saved session as plain values.
pub struct SessionView {
    pub access: Seq<char>,
    pub refresh: Seq<char>,
    pub org: Option<Seq<char>>,
    pub tenant: Option<Seq<char>>,
}

impl View for SessionRecord {
    type V = SessionView;

    open spec fn view(&self) -> SessionView {
        SessionView {
            access: self.access_token@,
            refresh: self.refresh_token@,
            org: opt_view(self.current_organization_id),
            tenant: opt_view(self.current_tenant_id),
        }
    }
}

/// What is read from `credentials.json`: an error, nothing saved, or a session.
pub open spec fn loaded_view(l: Result<Option<SessionRecord>, String>) -> Result<Option<SessionView>, Seq<char>> {
    match l {
        Ok(Some(r)) => Ok(Some(r@)),
        Ok(None) => Ok(None),
        Err(e) => Err(e@),
    }
}

/// A change to the saved session.
#[derive(Debug)]
pub enum SessionChange {
    /// New tokens after signing in; the current organisation and tenant stay.
    Tokens { access_token: String, refresh_token: String },
    /// Sets or unsets the current tenant.
    Tenant(Option<String>),
    /// Sets the current organisation and unsets the current tenant.
    Organization(String),
}

/// A change as plain values.
pub enum ChangeView {
    Tokens(Seq<char>, Seq<char>),
    Tenant(Option<Seq<char>>),
    Organization(Seq<char>),
}

impl View for SessionChange {
    type V = ChangeView;

    open spec fn view(&self) -> ChangeView {
        match self {
            SessionChange::Tokens { access_token, refresh_token } => ChangeView::Tokens(
                access_token@,
                refresh_token@,
            ),
            SessionChange::Tenant(t) => ChangeView::Tenant(opt_view(*t)),
            SessionChange::Organization(o) => ChangeView::Organization(o@),
        }
    }
}

/// The session after a change; with nothing saved, the change applies to an empty session.
pub open spec fn spec_apply_change(saved: Option<SessionView>, c: ChangeView) -> SessionView {
    let b = match saved {
        Some(v) => v,
        None => SessionView { access: Seq::empty(), refresh: Seq::empty(), org: None, tenant: None },
    };
    match c {
        ChangeView::Tokens(a, r) => SessionView { access: a, refresh: r, org: b.org, tenant: b.tenant },
        ChangeView::Tenant(t) => SessionView { access: b.access, refresh: b.refresh, org: b.org, tenant: t },
        ChangeView::Organization(o) => SessionView {
            access: b.access,
            refresh: b.refresh,
            org: Some(o),
            tenant: None,
        },
    }
}

/// The view of an optional saved session.
pub open spec fn opt_session_view(o: Option<SessionRecord>) -> Option<SessionView> {
    match o {
        Some(r) => Some(r@),
        None => None,
    }
}

/// Applies a change to what was saved (an empty session when nothing was).
pub fn apply_session_change(saved: Option<SessionRecord>, change: SessionChange) -> (r: SessionRecord)
    ensures
        r@ == spec_apply_change(opt_session_view(saved), change@),
{
    let b = match saved {
        Some(v) => v,
        None => SessionRecord {
            access_token: String::new(),
            refresh_token: String::new(),
            current_organization_id: None,
            current_tenant_id: None,
        },
    };
    match change {
        SessionChange::Tokens { access_token, refresh_token } => SessionRecord {
            access_token,
            refresh_token,
            current_organization_id: b.current_organization_id,
            current_tenant_id: b.current_tenant_id,
        },
        SessionChange::Tenant(t) => SessionRecord {
            access_token: b.access_token,
            refresh_token: b.refresh_token,
            current_organization_id: b.current_organization_id,
            current_tenant_id: t,
        },
        SessionChange::Organization(o) => SessionRecord {
            access_token: b.access_token,
            refresh_token: b.refresh_token,
            current_organization_id: Some(o),
            current_tenant_id: None,
        },
    }
}

// ---------------------------------------------------------------------------
// Listings, the shell state and what the front end provides
// ---------------------------------------------------------------------------

/// Which rows a listing picker holds.
#[derive(Clone, Copy, Debug, PartialEq, Eq, Structural)]
pub enum ListingKind {
    Tenants,
    Organizations,
}

/// The `/tenants` or `/organizations` picker.
#[derive(Clone, Debug)]
pub struct Listing {
    pub kind: ListingKind,
    pub tenants: Vec<TenantRow>,
    pub organizations: Vec<OrgRow>,
    pub endpoint: String,
    pub credentials_note: Option<String>,
}

/// A listing picker as plain values.
pub struct ListingView {
    pub kind: ListingKind,
    pub tenants: Seq<TenantRowView>,
    pub orgs: Seq<OrgRowView>,
    pub endpoint: Seq<char>,
    pub note: Option<Seq<char>>,
}

impl View for Listing {
    type V = ListingView;

    open spec fn view(&self) -> ListingView {
        ListingView {
            kind: self.kind,
            tenants: rows_view(self.tenants@),
            orgs: orgs_view(self.organizations@),
            endpoint: self.endpoint@,
            note: opt_view(self.credentials_note),
        }
    }
}

/// The picker's title.
pub open spec fn spec_listing_title(k: ListingKind) -> Seq<char> {
    match k {
        ListingKind::Tenants => "Tenants"@,
        ListingKind::Organizations => "Organizations"@,
    }
}

/// The command that lists the picker's rows again.
pub open spec fn spec_listing_command(k: ListingKind) -> Seq<char> {
    match k {
        ListingKind::Tenants => "tenants"@,
        ListingKind::Organizations => "organizations"@,
    }
}

/// How many rows the picker shows.
pub open spec fn spec_row_count(l: ListingView) -> nat {
    match l.kind {
        ListingKind::Tenants => l.tenants.len(),
        ListingKind::Organizations => l.orgs.len(),
    }
}

impl Listing {
    /// The picker's title.
    pub fn title(&self) -> (r: &'static str)
        ensures
            r@ == spec_listing_title(self.kind),
    {
        match self.kind {
            ListingKind::Tenants => "Tenants",
            ListingKind::Organizations => "Organizations",
        }
    }

    /// The command that lists the picker's rows again.
    pub fn command(&self) -> (r: &'static str)
        ensures
            r@ == spec_listing_command(self.kind),
    {
        match self.kind {
            ListingKind::Tenants => "tenants",
            ListingKind::Organizations => "organizations",
        }
    }

    /// How many rows the picker shows.
    pub fn row_count(&self) -> (r: usize)
        ensures
            r == spec_row_count(self@),
    {
        match self.kind {
            ListingKind::Tenants => self.tenants.len(),
            ListingKind::Organizations => self.organizations.len(),
        }
    }
}

/// What the shell shows besides the input line.
pub struct ShellState {
    /// The session output text.
    pub status: Option<String>,
    /// Whether the session output reports a failure.
    pub status_err: bool,
    pub listing: Option<Listing>,
    pub whoami: Option<WhoamiOutputPane>,
    pub browse: Option<BrowseSession>,
    pub quit: bool,
}

/// The shell state as plain values.
pub struct ShellView {
    pub status: Option<Seq<char>>,
    pub status_err: bool,
    pub listing: Option<ListingView>,
    pub whoami: Option<PaneView>,
    pub browse: Option<BrowseView>,
    pub quit: bool,
}

impl View for ShellState {
    type V = ShellView;

    open spec fn view(&self) -> ShellView {
        ShellView {
            status: opt_view(self.status),
            status_err: self.status_err,
            listing: match self.listing {
                Some(l) => Some(l@),
                None => None,
            },
            whoami: match self.whoami {
                Some(p) => Some(p@),
                None => None,
            },
            browse: match self.browse {
                Some(b) => Some(b@),
                None => None,
            },
            quit: self.quit,
        }
    }
}

impl ShellState {
    /// The shell at start: nothing shown.
    pub fn new() -> (r: Self)
        ensures
            r@ == (ShellView {
                status: None,
                status_err: false,
                listing: None,
                whoami: None,
                browse: None,
                quit: false,
            }),
    {
        ShellState { status: None, status_err: false, listing: None, whoami: None, browse: None, quit: false }
    }
}

/// What the front end knows of its surroundings: the API origin, the credentials file
/// (as a note and as a path, when it could be resolved) and the sign-in configuration.
pub struct ShellContext {
    pub api_origin: String,
    pub credentials_note: Option<String>,
    pub credentials_path: Option<String>,
    pub auth: CliAuthConfig,
}

/// The surroundings as plain values.
pub struct ContextView {
    pub origin: Seq<char>,
    pub note: Option<Seq<char>>,
    pub path: Option<Seq<char>>,
    pub identity_origin: Seq<char>,
    pub environment_id: Seq<char>,
}

impl View for ShellContext {
    type V = ContextView;

    open spec fn view(&self) -> ContextView {
        ContextView {
            origin: self.api_origin@,
            note: opt_view(self.credentials_note),
            path: opt_view(self.credentials_path),
            identity_origin: self.auth.identity_origin@,
            environment_id: self.auth.environment_id@,
        }
    }
}

// ---------------------------------------------------------------------------
// Outside work
// ---------------------------------------------------------------------------

/// What to report once the saved session was written.
#[derive(Debug)]
pub enum AfterSave {
    /// Show `ok`; on failure, the error.
    Report { ok: String },
    /// A listing picker choice: show `ok`; on failure, `Could not save {noun}` with the note.
    ListingChoice { ok: String, noun: String, note: Option<String> },
    /// A tenant chosen in `/browse`: fetch its projects; on failure, the error.
    BrowseProjects { access_token: String, tenant_id: String },
    /// After signing in.
    SignedIn,
}

/// The next piece of outside work.
#[derive(Debug)]
pub enum SubmitAction {
    /// Nothing.
    Idle,
    /// Run the browser sign-in; hand its outcome to [`on_login`].
    BrowserLogin,
    /// Remove the saved session; hand the outcome to [`on_cleared`].
    ClearSession,
    /// `GET /v1/userinfo`; hand the outcome to [`on_userinfo`].
    FetchUserinfo { access_token: String },
    /// `GET /v1/tenants` for `/tenants`; hand the outcome to [`on_tenants_listed`].
    ListTenants { access_token: String, scope: Option<String> },
    /// `GET /v1/tenants` to check `/tenant <uuid>`; hand the outcome to [`on_tenant_checked`].
    VerifyTenant { access_token: String, scope: Option<String>, tenant_id: String },
    /// `GET /v1/tenants/{id}/projects`; hand the outcome to [`on_projects`].
    FetchProjects { access_token: String, tenant_id: String },
    /// `GET /v1/organizations` for `/organizations`; hand the outcome to [`on_organizations_listed`].
    ListOrganizations { access_token: String },
    /// `GET /v1/organizations` to start `/browse`; hand the outcome to [`on_browse_organizations`].
    StartBrowse { access_token: String },
    /// `GET /v1/tenants` (unscoped) for `/browse` without organisations; hand the outcome
    /// to [`on_browse_tenants`].
    BrowseAllTenants { access_token: String },
    /// `GET /v1/tenants` (unscoped) after an organisation was picked; hand the outcome to
    /// [`on_organization_tenants`].
    FetchOrganizationTenants { access_token: String, org_index: usize },
    /// Read the saved session, apply the change and write it back; hand the outcome to
    /// [`on_saved`] with `then`.
    SaveSession { change: SessionChange, then: AfterSave },
}

/// What to report after a write, as plain values.
pub enum AfterView {
    Report(Seq<char>),
    ListingChoice(Seq<char>, Seq<char>, Option<Seq<char>>),
    BrowseProjects(Seq<char>, Seq<char>),
    SignedIn,
}

/// The next piece of outside work, as plain values.
pub enum ActionView {
    Idle,
    BrowserLogin,
    ClearSession,
    FetchUserinfo(Seq<char>),
    ListTenants(Seq<char>, Option<Seq<char>>),
    VerifyTenant(Seq<char>, Option<Seq<char>>, Seq<char>),
    FetchProjects(Seq<char>, Seq<char>),
    ListOrganizations(Seq<char>),
    StartBrowse(Seq<char>),
    BrowseAllTenants(Seq<char>),
    FetchOrganizationTenants(Seq<char>, usize),
    SaveSession(ChangeView, AfterView),
}

impl View for AfterSave {
    type V = AfterView;

    open spec fn view(&self) -> AfterView {
        match self {
            AfterSave::Report { ok } => AfterView::Report(ok@),
            AfterSave::ListingChoice { ok, noun, note } => AfterView::ListingChoice(ok@, noun@, opt_view(*note)),
            AfterSave::BrowseProjects { access_token, tenant_id } => AfterView::BrowseProjects(
                access_token@,
                tenant_id@,
            ),
            AfterSave::SignedIn => AfterView::SignedIn,
        }
    }
}

impl View for SubmitAction {
    type V = ActionView;

    open spec fn view(&self) -> ActionView {
        match self {
            SubmitAction::Idle => ActionView::Idle,
            SubmitAction::BrowserLogin => ActionView::BrowserLogin,
            SubmitAction::ClearSession => ActionView::ClearSession,
            SubmitAction::FetchUserinfo { access_token } => ActionView::FetchUserinfo(access_token@),
            SubmitAction::ListTenants { access_token, scope } => ActionView::ListTenants(
                access_token@,
                opt_view(*scope),
            ),
            SubmitAction::VerifyTenant { access_token, scope, tenant_id } => ActionView::VerifyTenant(
                access_token@,
                opt_view(*scope),
                tenant_id@,
            ),
            SubmitAction::FetchProjects { access_token, tenant_id } => ActionView::FetchProjects(
                access_token@,
                tenant_id@,
            ),
            SubmitAction::ListOrganizations { access_token } => ActionView::ListOrganizations(access_token@),
            SubmitAction::StartBrowse { access_token } => ActionView::StartBrowse(access_token@),
            SubmitAction::BrowseAllTenants { access_token } => ActionView::BrowseAllTenants(access_token@),
            SubmitAction::FetchOrganizationTenants { access_token, org_index } => ActionView::FetchOrganizationTenants(
                access_token@,
                *org_index,
            ),
            SubmitAction::SaveSession { change, then } => ActionView::SaveSession(change@, then@),
        }
    }
}

// ---------------------------------------------------------------------------
// Small helpers
// ---------------------------------------------------------------------------

/// The shell showing `msg` (as an error when `err`).
pub open spec fn spec_say(s: ShellView, msg: Seq<char>, err: bool) -> ShellView {
    ShellView {
        status: Some(msg),
        status_err: err,
        listing: s.listing,
        whoami: s.whoami,
        browse: s.browse,
        quit: s.quit,
    }
}

fn say(s: ShellState, msg: String, err: bool) -> (r: ShellState)
    ensures
        r@ == spec_say(s@, msg@, err),
{
    ShellState {
        status: Some(msg),
        status_err: err,
        listing: s.listing,
        whoami: s.whoami,
        browse: s.browse,
        quit: s.quit,
    }
}

fn owned(s: &str) -> (r: String)
    ensures
        r@ == s@,
{
    let v = chars_of(s);
    string_of(&v)
}

fn clone_opt(o: &Option<String>) -> (r: Option<String>)
    ensures
        opt_view(r) == opt_view(*o),
{
    match o {
        Some(s) => Some(s.clone()),
        None => None,
    }
}

fn opt_as_str(o: &Option<String>) -> (r: Option<&str>)
    ensures
        crate::tenants::opt_str_view(r) == opt_view(*o),
{
    match o {
        Some(s) => Some(s.as_str()),
        None => None,
    }
}

// ---------------------------------------------------------------------------
// A submitted line
// ---------------------------------------------------------------------------

/// Whether the command needs the saved session (and says so when there is none).
pub open spec fn spec_needs_session(c: SubmitView) -> bool {
    c is Whoami || c is Tenants || c is Tenant || c is Projects || c is Browse || c is Organizations
}

/// The command's name in `Not logged in (/…)`.
pub open spec fn spec_session_word(c: SubmitView) -> Seq<char> {
    match c {
        SubmitView::Whoami => "whoami"@,
        SubmitView::Tenants => "tenants"@,
        SubmitView::Tenant(_) => "tenant"@,
        SubmitView::Projects => "projects"@,
        SubmitView::Browse => "browse"@,
        _ => "organizations"@,
    }
}

/// `Not logged in (/{word}).` with the hint.
pub open spec fn spec_not_logged_in(word: Seq<char>) -> Seq<char> {
    "Not logged in (/"@ + word + ").\nTry /login, or use /status to confirm files."@
}

/// `/tenant` without argument.
pub open spec fn spec_current_tenant_message(t: Option<Seq<char>>) -> Seq<char> {
    match t {
        Some(id) => "Current tenant:\n"@ + id,
        None => "No current tenant set.\nUse `/tenant <uuid>` (see `/tenants`).\n`/tenant clear` unsets."@,
    }
}

/// The shell without the browse navigator.
pub open spec fn spec_close_browse(s: ShellView) -> ShellView {
    ShellView { status: s.status, status_err: s.status_err, listing: s.listing, whoami: s.whoami, browse: None, quit: s.quit }
}

/// A command that needs the saved session, once a session was read.
pub open spec fn spec_with_session(s: ShellView, c: SubmitView, v: SessionView) -> (ShellView, ActionView) {
    match c {
        SubmitView::Whoami => (s, ActionView::FetchUserinfo(v.access)),
        SubmitView::Tenants => (spec_close_browse(s), ActionView::ListTenants(v.access, spec_scope(v.org))),
        SubmitView::Tenant(arg) => match arg {
            TenantArgView::Show => (spec_say(s, spec_current_tenant_message(v.tenant), false), ActionView::Idle),
            TenantArgView::Clear => (
                s,
                ActionView::SaveSession(ChangeView::Tenant(None), AfterView::Report(TENANT_CLEARED@)),
            ),
            TenantArgView::Select(tid) => (s, ActionView::VerifyTenant(v.access, spec_scope(v.org), tid)),
            TenantArgView::Invalid(t) => (
                spec_say(
                    s,
                    "Invalid tenant UUID `"@ + t + "`.\nExpected a value like 00000000-0000-4000-8000-000000000001."@,
                    true,
                ),
                ActionView::Idle,
            ),
            TenantArgView::Usage => (spec_say(s, TENANT_USAGE@, true), ActionView::Idle),
        },
        SubmitView::Projects => match v.tenant {
            None => (spec_say(spec_close_browse(s), NO_CURRENT_TENANT@, false), ActionView::Idle),
            Some(t) => (spec_close_browse(s), ActionView::FetchProjects(v.access, t)),
        },
        SubmitView::Browse => (
            ShellView { status: None, status_err: false, listing: None, whoami: s.whoami, browse: s.browse, quit: s.quit },
            ActionView::StartBrowse(v.access),
        ),
        _ => (spec_close_browse(s), ActionView::ListOrganizations(v.access)),
    }
}

/// `/status` for what was read of the saved session.
pub open spec fn spec_status_report(sess: Result<Option<SessionView>, Seq<char>>, path: Option<Seq<char>>) -> (Seq<char>, bool) {
    match sess {
        Err(e) => (e, true),
        Ok(None) => (NOT_LOGGED_IN_STATUS@, false),
        Ok(Some(v)) => (
            spec_status_text(
                match path {
                    Some(p) => p,
                    None => "(unknown)"@,
                },
                v.access,
                v.refresh,
            ) + selection_line("organization"@, v.org) + selection_line("tenant"@, v.tenant),
            false,
        ),
    }
}

/// A submitted command. A blank line only clears the status. Otherwise the listing stays
/// only for the listing commands and `/browse`, the `/whoami` pane only for `/whoami`; then
/// the command decides.
pub open spec fn spec_submit_step(
    s: ShellView,
    c: SubmitView,
    sess: Result<Option<SessionView>, Seq<char>>,
    ctx: ContextView,
) -> (ShellView, ActionView) {
    let keep_listing = c is Empty || c is Tenants || c is Organizations || c is Browse || c is Projects;
    let s0 = ShellView {
        status: s.status,
        status_err: s.status_err,
        listing: if keep_listing { s.listing } else { None },
        whoami: if c is Empty || c is Whoami { s.whoami } else { None },
        browse: s.browse,
        quit: s.quit,
    };
    if spec_needs_session(c) {
        match sess {
            Err(e) => (spec_say(s0, e, true), ActionView::Idle),
            Ok(None) => (spec_say(s0, spec_not_logged_in(spec_session_word(c)), false), ActionView::Idle),
            Ok(Some(v)) => spec_with_session(s0, c, v),
        }
    } else {
        match c {
            SubmitView::Empty => (
                ShellView { status: None, status_err: false, listing: s0.listing, whoami: s0.whoami, browse: s0.browse, quit: s0.quit },
                ActionView::Idle,
            ),
            SubmitView::Quit => (
                ShellView { status: s0.status, status_err: s0.status_err, listing: s0.listing, whoami: s0.whoami, browse: s0.browse, quit: true },
                ActionView::Idle,
            ),
            SubmitView::Help => (spec_say(s0, spec_help_text(), false), ActionView::Idle),
            SubmitView::Login => (
                spec_say(s0, spec_login_message(ctx.identity_origin, ctx.environment_id), false),
                ActionView::BrowserLogin,
            ),
            SubmitView::Logout => (s0, ActionView::ClearSession),
            SubmitView::Status => {
                let (m, e) = spec_status_report(sess, ctx.path);
                (spec_say(s0, m, e), ActionView::Idle)
            },
            SubmitView::Unknown(w) => (spec_say(s0, "unknown command: "@ + w, true), ActionView::Idle),
            SubmitView::Echo(t) => (spec_say(s0, t, false), ActionView::Idle),
            _ => (s0, ActionView::Idle),
        }
    }
}

fn needs_session(c: &SubmitCommand) -> (b: bool)
    ensures
        b == spec_needs_session(c@),
{
    match c {
        SubmitCommand::Whoami | SubmitCommand::Tenants | SubmitCommand::Tenant(_)
        | SubmitCommand::Projects | SubmitCommand::Browse | SubmitCommand::Organizations => true,
        _ => false,
    }
}

/// Whether the command reads the saved session: those that need it, and `/status`.
pub fn reads_saved_session(c: &SubmitCommand) -> (b: bool)
    ensures
        b == (spec_needs_session(c@) || c@ is Status),
{
    match c {
        SubmitCommand::Status => true,
        _ => needs_session(c),
    }
}

fn session_word(c: &SubmitCommand) -> (r: &'static str)
    ensures
        r@ == spec_session_word(c@),
{
    match c {
        SubmitCommand::Whoami => "whoami",
        SubmitCommand::Tenants => "tenants",
        SubmitCommand::Tenant(_) => "tenant",
        SubmitCommand::Projects => "projects",
        SubmitCommand::Browse => "browse",
        _ => "organizations",
    }
}

fn close_browse(s: ShellState) -> (r: ShellState)
    ensures
        r@ == spec_close_browse(s@),
{
    ShellState { status: s.status, status_err: s.status_err, listing: s.listing, whoami: s.whoami, browse: None, quit: s.quit }
}

fn with_session(s: ShellState, c: SubmitCommand, v: SessionRecord) -> (r: (ShellState, SubmitAction))
    requires
        spec_needs_session(c@),
    ensures
        r.0@ == spec_with_session(s@, c@, v@).0,
        r.1@ == spec_with_session(s@, c@, v@).1,
{
    match c {
        SubmitCommand::Whoami => (s, SubmitAction::FetchUserinfo { access_token: v.access_token }),
        SubmitCommand::Tenants => {
            let scope = tenants_organization_scope(opt_as_str(&v.current_organization_id));
            (close_browse(s), SubmitAction::ListTenants { access_token: v.access_token, scope })
        },
        SubmitCommand::Tenant(arg) => match arg {
            TenantArg::Show => {
                let m = current_tenant_message(opt_as_str(&v.current_tenant_id));
                (say(s, m, false), SubmitAction::Idle)
            },
            TenantArg::Clear => (
                s,
                SubmitAction::SaveSession {
                    change: SessionChange::Tenant(None),
                    then: AfterSave::Report { ok: owned(TENANT_CLEARED) },
                },
            ),
            TenantArg::Select(tid) => {
                let scope = tenants_organization_scope(opt_as_str(&v.current_organization_id));
                (s, SubmitAction::VerifyTenant { access_token: v.access_token, scope, tenant_id: tid })
            },
            TenantArg::Invalid(t) => {
                let m = invalid_tenant_message(t.as_str());
                (say(s, m, true), SubmitAction::Idle)
            },
            TenantArg::Usage => (say(s, owned(TENANT_USAGE), true), SubmitAction::Idle),
        },
        SubmitCommand::Projects => {
            let s1 = close_browse(s);
            match v.current_tenant_id {
                None => (say(s1, owned(NO_CURRENT_TENANT), false), SubmitAction::Idle),
                Some(t) => (s1, SubmitAction::FetchProjects { access_token: v.access_token, tenant_id: t }),
            }
        },
        SubmitCommand::Browse => (
            ShellState { status: None, status_err: false, listing: None, whoami: s.whoami, browse: s.browse, quit: s.quit },
            SubmitAction::StartBrowse { access_token: v.access_token },
        ),
        _ => (close_browse(s), SubmitAction::ListOrganizations { access_token: v.access_token }),
    }
}

fn status_report(sess: Result<Option<SessionRecord>, String>, path: &Option<String>) -> (r: (String, bool))
    ensures
        (r.0@, r.1) == spec_status_report(loaded_view(sess), opt_view(*path)),
{
    match sess {
        Err(e) => (e, true),
        Ok(None) => (owned(NOT_LOGGED_IN_STATUS), false),
        Ok(Some(v)) => {
            let p: &str = match path {
                Some(p) => p.as_str(),
                None => "(unknown)",
            };
            let t = status_text(p, v.access_token.as_str(), v.refresh_token.as_str());
            let l = current_selection_lines(opt_as_str(&v.current_organization_id), opt_as_str(&v.current_tenant_id));
            let mut c = chars_of(t.as_str());
            push_str(&mut c, l.as_str());
            (string_of(&c), false)
        },
    }
}

/// Runs a submitted command against the shell: what it shows and the outside work that
/// follows. `session` is what reading the saved session gave (read for every command).
pub fn submit_step(
    state: ShellState,
    cmd: SubmitCommand,
    session: Result<Option<SessionRecord>, String>,
    ctx: &ShellContext,
) -> (r: (ShellState, SubmitAction))
    ensures
        r.0@ == spec_submit_step(state@, cmd@, loaded_view(session), ctx@).0,
        r.1@ == spec_submit_step(state@, cmd@, loaded_view(session), ctx@).1,
{
    let blank = match cmd {
        SubmitCommand::Empty => true,
        _ => false,
    };
    let keep_listing = blank || cmd.keeps_listing();
    let keep_whoami = blank || cmd.keeps_whoami_output();
    let s0 = ShellState {
        status: state.status,
        status_err: state.status_err,
        listing: if keep_listing { state.listing } else { None },
        whoami: if keep_whoami { state.whoami } else { None },
        browse: state.browse,
        quit: state.quit,
    };
    if needs_session(&cmd) {
        match session {
            Err(e) => (say(s0, e, true), SubmitAction::Idle),
            Ok(None) => {
                let m = not_logged_in_message(session_word(&cmd));
                (say(s0, m, false), SubmitAction::Idle)
            },
            Ok(Some(v)) => with_session(s0, cmd, v),
        }
    } else {
        match cmd {
            SubmitCommand::Empty => (
                ShellState { status: None, status_err: false, listing: s0.listing, whoami: s0.whoami, browse: s0.browse, quit: s0.quit },
                SubmitAction::Idle,
            ),
            SubmitCommand::Quit => (
                ShellState { status: s0.status, status_err: s0.status_err, listing: s0.listing, whoami: s0.whoami, browse: s0.browse, quit: true },
                SubmitAction::Idle,
            ),
            SubmitCommand::Help => (say(s0, help_text(), false), SubmitAction::Idle),
            SubmitCommand::Login => (say(s0, login_message(&ctx.auth), false), SubmitAction::BrowserLogin),
            SubmitCommand::Logout => (s0, SubmitAction::ClearSession),
            SubmitCommand::Status => {
                let (m, e) = status_report(session, &ctx.credentials_path);
                (say(s0, m, e), SubmitAction::Idle)
            },
            SubmitCommand::Unknown(w) => (say(s0, unknown_command_message(w.as_str()), true), SubmitAction::Idle),
            SubmitCommand::Echo(t) => (say(s0, t, false), SubmitAction::Idle),
            _ => (s0, SubmitAction::Idle),
        }
    }
}

// ---------------------------------------------------------------------------
// Outcomes of outside work
// ---------------------------------------------------------------------------

/// `Login failed:\n{error}`.
pub open spec fn spec_login_failed(e: Seq<char>) -> Seq<char> {
    "Login failed:\n"@ + e
}

/// The banner after signing in.
pub open spec fn signed_in_message() -> Seq<char> {
    "\u{2714} Signed in"@
}

/// The browser sign-in ended: save the new tokens (keeping the current organisation and
/// tenant), or report why it failed.
pub open spec fn spec_on_login(s: ShellView, outcome: Result<(Seq<char>, Seq<char>), Seq<char>>) -> (ShellView, ActionView) {
    match outcome {
        Ok((a, r)) => (s, ActionView::SaveSession(ChangeView::Tokens(a, r), AfterView::SignedIn)),
        Err(e) => (spec_say(s, spec_login_failed(e), true), ActionView::Idle),
    }
}

/// The view of a sign-in outcome.
pub open spec fn login_outcome_view(o: Result<(String, String), String>) -> Result<(Seq<char>, Seq<char>), Seq<char>> {
    match o {
        Ok((a, r)) => Ok((a@, r@)),
        Err(e) => Err(e@),
    }
}

fn login_failed(e: &str) -> (r: String)
    ensures
        r@ == spec_login_failed(e@),
{
    let mut v = chars_of("Login failed:\n");
    push_str(&mut v, e);
    string_of(&v)
}

/// After the browser sign-in: the tokens it gave, or its error.
pub fn on_login(state: ShellState, outcome: Result<(String, String), String>) -> (r: (ShellState, SubmitAction))
    ensures
        r.0@ == spec_on_login(state@, login_outcome_view(outcome)).0,
        r.1@ == spec_on_login(state@, login_outcome_view(outcome)).1,
{
    match outcome {
        Ok((a, t)) => (
            state,
            SubmitAction::SaveSession {
                change: SessionChange::Tokens { access_token: a, refresh_token: t },
                then: AfterSave::SignedIn,
            },
        ),
        Err(e) => {
            let m = login_failed(e.as_str());
            (say(state, m, true), SubmitAction::Idle)
        },
    }
}

/// The view of the outcome of a write or a removal.
pub open spec fn done_view(o: Result<(), String>) -> Result<(), Seq<char>> {
    match o {
        Ok(()) => Ok(()),
        Err(e) => Err(e@),
    }
}

/// `/logout` removed the saved session, or could not.
pub open spec fn spec_on_cleared(s: ShellView, outcome: Result<(), Seq<char>>) -> ShellView {
    match outcome {
        Ok(()) => spec_say(s, SIGNED_OUT@, false),
        Err(e) => spec_say(s, e, true),
    }
}

/// After `/logout` tried to remove the saved session.
pub fn on_cleared(state: ShellState, outcome: Result<(), String>) -> (r: ShellState)
    ensures
        r@ == spec_on_cleared(state@, done_view(outcome)),
{
    match outcome {
        Ok(()) => say(state, owned(SIGNED_OUT), false),
        Err(e) => say(state, e, true),
    }
}

/// The saved session was written (or not): report, or go on to the projects of the tenant
/// chosen in `/browse` (the navigator closes).
pub open spec fn spec_on_saved(s: ShellView, then: AfterView, outcome: Result<(), Seq<char>>) -> (ShellView, ActionView) {
    match outcome {
        Ok(()) => match then {
            AfterView::Report(ok) => (spec_say(s, ok, false), ActionView::Idle),
            AfterView::ListingChoice(ok, _, _) => (spec_say(s, ok, false), ActionView::Idle),
            AfterView::BrowseProjects(a, t) => (spec_close_browse(s), ActionView::FetchProjects(a, t)),
            AfterView::SignedIn => (spec_say(s, signed_in_message(), false), ActionView::Idle),
        },
        Err(e) => match then {
            AfterView::ListingChoice(_, noun, note) => (
                spec_say(s, spec_with_footer("Could not save "@ + noun + ":\n"@ + e, note), true),
                ActionView::Idle,
            ),
            AfterView::SignedIn => (spec_say(s, spec_login_failed(e), true), ActionView::Idle),
            _ => (spec_say(s, e, true), ActionView::Idle),
        },
    }
}

/// After the saved session was written, with what to report.
pub fn on_saved(state: ShellState, then: AfterSave, outcome: Result<(), String>) -> (r: (ShellState, SubmitAction))
    ensures
        r.0@ == spec_on_saved(state@, then@, done_view(outcome)).0,
        r.1@ == spec_on_saved(state@, then@, done_view(outcome)).1,
{
    match outcome {
        Ok(()) => match then {
            AfterSave::Report { ok } => (say(state, ok, false), SubmitAction::Idle),
            AfterSave::ListingChoice { ok, .. } => (say(state, ok, false), SubmitAction::Idle),
            AfterSave::BrowseProjects { access_token, tenant_id } => (
                close_browse(state),
                SubmitAction::FetchProjects { access_token, tenant_id },
            ),
            AfterSave::SignedIn => (say(state, owned("\u{2714} Signed in"), false), SubmitAction::Idle),
        },
        Err(e) => match then {
            AfterSave::ListingChoice { noun, note, .. } => {
                let m = listing_save_failed_message(noun.as_str(), e.as_str(), note.as_ref());
                (say(state, m, true), SubmitAction::Idle)
            },
            AfterSave::SignedIn => {
                let m = login_failed(e.as_str());
                (say(state, m, true), SubmitAction::Idle)
            },
            _ => (say(state, e, true), SubmitAction::Idle),
        },
    }
}

/// `/whoami` got the identity record (the pane opens, the status clears) or an error
/// (reported, no pane).
pub open spec fn spec_on_userinfo(s: ShellView, ctx: ContextView, fetched: Result<Json, Seq<char>>) -> ShellView {
    match fetched {
        Ok(v) => ShellView {
            status: None,
            status_err: false,
            listing: s.listing,
            whoami: Some(
                PaneView {
                    endpoint: endpoint_url(ctx.origin, "/v1/userinfo"@),
                    pretty: spec_identity_pretty(v),
                    raw: spec_json_pretty(v),
                    note: ctx.note,
                    tab: WhoamiJsonTab::Pretty,
                },
            ),
            browse: s.browse,
            quit: s.quit,
        },
        Err(e) => ShellView {
            status: Some(spec_whoami_report(ctx.origin, Err(e), ctx.note)),
            status_err: false,
            listing: s.listing,
            whoami: None,
            browse: s.browse,
            quit: s.quit,
        },
    }
}

/// After `GET /v1/userinfo` for `/whoami`.
pub fn on_userinfo(state: ShellState, ctx: &ShellContext, fetched: &Result<Json, String>) -> (r: ShellState)
    ensures
        r@ == spec_on_userinfo(state@, ctx@, outcome_view(*fetched)),
{
    match fetched {
        Ok(v) => {
            let (pretty, raw) = format_identity_json_pair(v);
            let pane = WhoamiOutputPane {
                endpoint_note: userinfo_endpoint_display(ctx.api_origin.as_str()),
                pretty_json: pretty,
                raw_json: raw,
                credentials_note: clone_opt(&ctx.credentials_note),
                tab: WhoamiJsonTab::Pretty,
            };
            ShellState {
                status: None,
                status_err: false,
                listing: state.listing,
                whoami: Some(pane),
                browse: state.browse,
                quit: state.quit,
            }
        },
        Err(e) => {
            let failed: Result<Json, String> = Err(e.clone());
            let m = compose_whoami_report(ctx.api_origin.as_str(), &failed, clone_opt(&ctx.credentials_note));
            ShellState {
                status: Some(m),
                status_err: false,
                listing: state.listing,
                whoami: None,
                browse: state.browse,
                quit: state.quit,
            }
        },
    }
}

/// The rows and advisory of a `/tenants` listing: all rows unscoped, else the
/// browse-scoped filter for the current organisation.
pub open spec fn spec_scoped_rows(body: Json, scope: Option<Seq<char>>) -> (Seq<TenantRowView>, Option<Seq<char>>) {
    match spec_scope(scope) {
        None => (spec_tenant_rows(body), None),
        Some(o) => spec_filter(spec_tenant_rows(body), o, TenantOrgFilterMode::BrowseOrganizationScoped),
    }
}

/// `/tenants` got its listing (the picker opens, the status shows the advisory) or an
/// error (reported as one).
pub open spec fn spec_on_tenants_listed(
    s: ShellView,
    ctx: ContextView,
    scope: Option<Seq<char>>,
    fetched: Result<Json, Seq<char>>,
) -> ShellView {
    match fetched {
        Ok(body) => {
            let (rows, advisory) = spec_scoped_rows(body, scope);
            ShellView {
                status: advisory,
                status_err: false,
                listing: Some(
                    ListingView {
                        kind: ListingKind::Tenants,
                        tenants: rows,
                        orgs: Seq::empty(),
                        endpoint: spec_tenants_list_url(ctx.origin, scope),
                        note: ctx.note,
                    },
                ),
                whoami: s.whoami,
                browse: s.browse,
                quit: s.quit,
            }
        },
        Err(e) => spec_say(
            s,
            spec_report("Tenants"@, spec_tenants_list_url(trim_end_char_seq(ctx.origin, '/'), scope), Err(e), None),
            true,
        ),
    }
}

/// After `GET /v1/tenants` for `/tenants` (with the organisation scope it was asked with).
pub fn on_tenants_listed(
    state: ShellState,
    ctx: &ShellContext,
    scope: &Option<String>,
    fetched: &Result<Json, String>,
) -> (r: ShellState)
    ensures
        r@ == spec_on_tenants_listed(state@, ctx@, opt_view(*scope), outcome_view(*fetched)),
{
    match fetched {
        Ok(body) => {
            let (rows, advisory) = tenant_listing_rows_from_body(body, opt_as_str(scope));
            let listing = Listing {
                kind: ListingKind::Tenants,
                tenants: rows,
                organizations: Vec::new(),
                endpoint: tenants_list_url_for_display(ctx.api_origin.as_str(), opt_as_str(scope)),
                credentials_note: clone_opt(&ctx.credentials_note),
            };
            proof {
                assert(orgs_view(listing.organizations@) =~= Seq::<OrgRowView>::empty());
            }
            ShellState {
                status: advisory,
                status_err: false,
                listing: Some(listing),
                whoami: state.whoami,
                browse: state.browse,
                quit: state.quit,
            }
        },
        Err(e) => {
            let failed: Result<Json, String> = Err(e.clone());
            let m = compose_tenants_report(ctx.api_origin.as_str(), opt_as_str(scope), &failed, None);
            say(state, m, true)
        },
    }
}

/// `/organizations` got its listing (the picker opens, the status clears) or an error.
pub open spec fn spec_on_organizations_listed(s: ShellView, ctx: ContextView, fetched: Result<Json, Seq<char>>) -> ShellView {
    match fetched {
        Ok(body) => ShellView {
            status: None,
            status_err: false,
            listing: Some(
                ListingView {
                    kind: ListingKind::Organizations,
                    tenants: Seq::empty(),
                    orgs: spec_org_rows(body),
                    endpoint: endpoint_url(ctx.origin, "/v1/organizations"@),
                    note: ctx.note,
                },
            ),
            whoami: s.whoami,
            browse: s.browse,
            quit: s.quit,
        },
        Err(e) => spec_say(
            s,
            spec_report("Organizations"@, endpoint_url(ctx.origin, "/v1/organizations"@), Err(e), None),
            true,
        ),
    }
}

/// After `GET /v1/organizations` for `/organizations`.
pub fn on_organizations_listed(state: ShellState, ctx: &ShellContext, fetched: &Result<Json, String>) -> (r: ShellState)
    ensures
        r@ == spec_on_organizations_listed(state@, ctx@, outcome_view(*fetched)),
{
    match fetched {
        Ok(body) => {
            let listing = Listing {
                kind: ListingKind::Organizations,
                tenants: Vec::new(),
                organizations: organization_rows_from_body(body),
                endpoint: endpoint(ctx.api_origin.as_str(), ORGANIZATIONS_PATH),
                credentials_note: clone_opt(&ctx.credentials_note),
            };
            proof {
                assert(rows_view(listing.tenants@) =~= Seq::<TenantRowView>::empty());
                reveal_strlit("/v1/organizations");
            }
            ShellState {
                status: None,
                status_err: false,
                listing: Some(listing),
                whoami: state.whoami,
                browse: state.browse,
                quit: state.quit,
            }
        },
        Err(e) => {
            let failed: Result<Json, String> = Err(e.clone());
            let m = compose_organizations_report(ctx.api_origin.as_str(), &failed, None);
            say(state, m, true)
        },
    }
}

/// `/tenant <uuid>` after the tenant listing was asked for: refused when the listing was
/// read and lacks the id, else the id is saved as the current tenant.
pub open spec fn spec_on_tenant_checked(s: ShellView, tid: Seq<char>, fetched: Result<Json, Seq<char>>) -> (ShellView, ActionView) {
    let warning = match fetched {
        Ok(_) => Seq::empty(),
        Err(e) => unverified_warning(e),
    };
    if fetched is Ok && !spec_listed_ids(fetched->Ok_0).contains(tid) {
        (
            spec_say(s, "Tenant id not found in /tenants listing:\n"@ + tid + "\nRun `/tenants` for ids."@, true),
            ActionView::Idle,
        )
    } else {
        (
            s,
            ActionView::SaveSession(
                ChangeView::Tenant(Some(tid)),
                AfterView::Report("Current tenant set to:\n"@ + tid + warning),
            ),
        )
    }
}

/// After `GET /v1/tenants` for `/tenant <uuid>`.
pub fn on_tenant_checked(state: ShellState, tenant_id: String, fetched: &Result<Json, String>) -> (r: (
    ShellState,
    SubmitAction,
))
    ensures
        r.0@ == spec_on_tenant_checked(state@, tenant_id@, outcome_view(*fetched)).0,
        r.1@ == spec_on_tenant_checked(state@, tenant_id@, outcome_view(*fetched)).1,
{
    let decided = tenant_selection(tenant_id.as_str(), fetched);
    let m = tenant_selection_message(tenant_id.as_str(), &decided);
    match decided {
        TenantSelection::NotListed => (say(state, m, true), SubmitAction::Idle),
        TenantSelection::Accepted { .. } => {
            proof {
                match fetched {
                    Ok(_) => assert(m@ =~= "Current tenant set to:\n"@ + tenant_id@ + Seq::<char>::empty()),
                    Err(_) => {},
                }
            }
            (
                state,
                SubmitAction::SaveSession {
                    change: SessionChange::Tenant(Some(tenant_id)),
                    then: AfterSave::Report { ok: m },
                },
            )
        },
    }
}

/// `/projects` (or a tenant chosen in `/browse`) got the projects of `tid`: the report, an
/// error report when the request failed.
pub open spec fn spec_on_projects(s: ShellView, ctx: ContextView, tid: Seq<char>, fetched: Result<Json, Seq<char>>) -> ShellView {
    spec_say(
        s,
        spec_report("Projects"@, endpoint_url(ctx.origin, projects_path(tid)), fetched, ctx.note),
        fetched is Err,
    )
}

/// After `GET /v1/tenants/{id}/projects`.
pub fn on_projects(state: ShellState, ctx: &ShellContext, tenant_id: &str, fetched: &Result<Json, String>) -> (r: ShellState)
    ensures
        r@ == spec_on_projects(state@, ctx@, tenant_id@, outcome_view(*fetched)),
{
    let m = compose_projects_report(ctx.api_origin.as_str(), tenant_id, fetched, clone_opt(&ctx.credentials_note));
    let failed = fetched.is_err();
    say(state, m, failed)
}

// ---------------------------------------------------------------------------
// The `/browse` navigator
// ---------------------------------------------------------------------------

/// How `/browse` starts once the organisations were asked for.
#[derive(Debug, PartialEq, Eq)]
pub enum BrowseStart {
    /// Show the organisations.
    Begin,
    /// No organisation: list every tenant instead, which takes a request of its own.
    FetchTenants,
    /// The request failed; the message says so.
    Fail(String),
}

/// `Browse could not load listings:\n{error}`.
pub open spec fn spec_browse_failed(e: Seq<char>) -> Seq<char> {
    "Browse could not load listings:\n"@ + e
}

fn browse_failed(e: &str) -> (r: String)
    ensures
        r@ == spec_browse_failed(e@),
{
    let mut v = chars_of("Browse could not load listings:\n");
    push_str(&mut v, e);
    string_of(&v)
}

/// Decides how `/browse` starts from the organisations (or the error) it got. Tenants are
/// asked for only when the organisations were listed and there are none.
pub fn browse_start(orgs: &Result<Vec<OrgRow>, String>) -> (r: BrowseStart)
    ensures
        (r is FetchTenants) <==> (orgs is Ok && orgs->Ok_0@.len() == 0),
        (r is Begin) <==> (orgs is Ok && orgs->Ok_0@.len() > 0),
        orgs matches Err(e) ==> (r matches BrowseStart::Fail(m) && m@ == spec_browse_failed(e@)),
{
    match orgs {
        Ok(rows) => if rows.len() == 0 {
            BrowseStart::FetchTenants
        } else {
            BrowseStart::Begin
        },
        Err(e) => BrowseStart::Fail(browse_failed(e.as_str())),
    }
}

/// `/browse` got the organisations: the navigator opens on them, or (without any) the
/// tenants are asked for, or the failure is reported.
pub open spec fn spec_on_browse_organizations(
    s: ShellView,
    ctx: ContextView,
    access: Seq<char>,
    fetched: Result<Json, Seq<char>>,
) -> (ShellView, ActionView) {
    match fetched {
        Err(e) => (spec_say(s, spec_browse_failed(e), true), ActionView::Idle),
        Ok(body) => if spec_org_rows(body).len() == 0 {
            (s, ActionView::BrowseAllTenants(access))
        } else {
            (
                ShellView {
                    status: s.status,
                    status_err: s.status_err,
                    listing: s.listing,
                    whoami: s.whoami,
                    browse: Some(
                        BrowseView {
                            access,
                            note: ctx.note,
                            orgs: spec_org_rows(body),
                            step: BrowseStepView::PickOrganization,
                        },
                    ),
                    quit: s.quit,
                },
                ActionView::Idle,
            )
        },
    }
}

/// After `GET /v1/organizations` for `/browse`.
pub fn on_browse_organizations(
    state: ShellState,
    ctx: &ShellContext,
    access_token: String,
    fetched: &Result<Json, String>,
) -> (r: (ShellState, SubmitAction))
    ensures
        r.0@ == spec_on_browse_organizations(state@, ctx@, access_token@, outcome_view(*fetched)).0,
        r.1@ == spec_on_browse_organizations(state@, ctx@, access_token@, outcome_view(*fetched)).1,
{
    let orgs: Result<Vec<OrgRow>, String> = match fetched {
        Ok(body) => Ok(organization_rows_from_body(body)),
        Err(e) => Err(e.clone()),
    };
    let start = browse_start(&orgs);
    match orgs {
        Err(_) => match start {
            BrowseStart::Fail(m) => (say(state, m, true), SubmitAction::Idle),
            _ => (state, SubmitAction::Idle),
        },
        Ok(rows) => match start {
            BrowseStart::FetchTenants => (state, SubmitAction::BrowseAllTenants { access_token }),
            _ => {
                let b = BrowseSession::begin(access_token, clone_opt(&ctx.credentials_note), rows, Vec::new());
                (
                    ShellState {
                        status: state.status,
                        status_err: state.status_err,
                        listing: state.listing,
                        whoami: state.whoami,
                        browse: Some(b),
                        quit: state.quit,
                    },
                    SubmitAction::Idle,
                )
            },
        },
    }
}

/// `/browse` without organisations got every tenant: the navigator opens on them, or the
/// failure is reported.
pub open spec fn spec_on_browse_tenants(
    s: ShellView,
    ctx: ContextView,
    access: Seq<char>,
    fetched: Result<Json, Seq<char>>,
) -> ShellView {
    match fetched {
        Err(e) => spec_say(s, spec_browse_failed(e), true),
        Ok(body) => ShellView {
            status: s.status,
            status_err: s.status_err,
            listing: s.listing,
            whoami: s.whoami,
            browse: Some(
                BrowseView {
                    access,
                    note: ctx.note,
                    orgs: Seq::empty(),
                    step: BrowseStepView::PickTenant(no_org_summary(), spec_tenant_rows(body)),
                },
            ),
            quit: s.quit,
        },
    }
}

/// After the unscoped `GET /v1/tenants` for `/browse` without organisations.
pub fn on_browse_tenants(
    state: ShellState,
    ctx: &ShellContext,
    access_token: String,
    fetched: &Result<Json, String>,
) -> (r: ShellState)
    ensures
        r@ == spec_on_browse_tenants(state@, ctx@, access_token@, outcome_view(*fetched)),
{
    match fetched {
        Err(e) => say(state, browse_failed(e.as_str()), true),
        Ok(body) => {
            let rows = tenant_rows_from_body(body);
            let b = BrowseSession::begin(access_token, clone_opt(&ctx.credentials_note), Vec::new(), rows);
            proof {
                assert(orgs_view(b.organizations@) =~= Seq::<OrgRowView>::empty());
            }
            ShellState {
                status: state.status,
                status_err: state.status_err,
                listing: state.listing,
                whoami: state.whoami,
                browse: Some(b),
                quit: state.quit,
            }
        },
    }
}

/// Enter in the navigator on row `sel`. Picking an organisation asks for the tenants
/// (only for a row that exists); picking a tenant saves it as the current tenant and then
/// asks for its projects. A row out of range is refused with a message.
pub open spec fn spec_browse_enter(s: ShellView, sel: usize) -> (ShellView, ActionView) {
    match s.browse {
        None => (s, ActionView::Idle),
        Some(b) => match b.step {
            BrowseStepView::PickOrganization => if sel < b.orgs.len() {
                (s, ActionView::FetchOrganizationTenants(b.access, sel))
            } else {
                (spec_say(s, "organization index"@, true), ActionView::Idle)
            },
            BrowseStepView::PickTenant(_, ts) => if sel < ts.len() {
                (
                    s,
                    ActionView::SaveSession(
                        ChangeView::Tenant(Some(ts[sel as int].id)),
                        AfterView::BrowseProjects(b.access, ts[sel as int].id),
                    ),
                )
            } else {
                (spec_say(s, "tenant index"@, true), ActionView::Idle)
            },
        },
    }
}

/// Enter in the navigator on row `selected`.
pub fn browse_enter(state: ShellState, selected: usize) -> (r: (ShellState, SubmitAction))
    ensures
        r.0@ == spec_browse_enter(state@, selected).0,
        r.1@ == spec_browse_enter(state@, selected).1,
{
    let (access, decided): (String, Result<Option<String>, BrowseError>) = match &state.browse {
        None => { return (state, SubmitAction::Idle); },
        Some(b) => {
            let d = match &b.step {
                BrowseStep::PickOrganization => if selected < b.organizations.len() {
                    Ok(None)
                } else {
                    Err(BrowseError::OrganizationIndex)
                },
                BrowseStep::PickTenant { .. } => match b.activate_tenant_choice(selected) {
                    Ok(id) => Ok(Some(id)),
                    Err(e) => Err(e),
                },
            };
            (b.access_token.clone(), d)
        },
    };
    match decided {
        Ok(None) => (state, SubmitAction::FetchOrganizationTenants { access_token: access, org_index: selected }),
        Ok(Some(id)) => {
            let id2 = id.clone();
            (
                state,
                SubmitAction::SaveSession {
                    change: SessionChange::Tenant(Some(id)),
                    then: AfterSave::BrowseProjects { access_token: access, tenant_id: id2 },
                },
            )
        },
        Err(e) => (say(state, owned(e.message()), true), SubmitAction::Idle),
    }
}

/// Esc in the navigator: back to the organisations (clearing the status) when that step
/// exists, else the navigator closes.
pub open spec fn spec_browse_back(s: ShellView) -> ShellView {
    match s.browse {
        None => s,
        Some(b) => {
            let (stepped, step) = crate::browse::spec_pop(b.step, b.orgs.len());
            if stepped {
                ShellView {
                    status: None,
                    status_err: false,
                    listing: s.listing,
                    whoami: s.whoami,
                    browse: Some(BrowseView { access: b.access, note: b.note, orgs: b.orgs, step }),
                    quit: s.quit,
                }
            } else {
                spec_close_browse(s)
            }
        },
    }
}

/// Esc in the navigator.
pub fn browse_back(state: ShellState) -> (r: ShellState)
    ensures
        r@ == spec_browse_back(state@),
{
    let st = state;
    match st.browse {
        None => ShellState { status: st.status, status_err: st.status_err, listing: st.listing, whoami: st.whoami, browse: None, quit: st.quit },
        Some(b) => {
            let mut b = b;
            if b.pop_to_organizations() {
                ShellState { status: None, status_err: false, listing: st.listing, whoami: st.whoami, browse: Some(b), quit: st.quit }
            } else {
                ShellState { status: st.status, status_err: st.status_err, listing: st.listing, whoami: st.whoami, browse: None, quit: st.quit }
            }
        },
    }
}

/// The navigator got every tenant after organisation `idx` was picked: it shows the
/// tenants of that organisation (browse-scoped filter) with the filter's advisory, or
/// reports the failure.
pub open spec fn spec_on_organization_tenants(s: ShellView, idx: usize, fetched: Result<Json, Seq<char>>) -> ShellView {
    match s.browse {
        None => s,
        Some(b) => match fetched {
            Err(e) => spec_say(s, e, true),
            Ok(body) => if idx < b.orgs.len() {
                let c = spec_choose_org(b.orgs, idx as int, spec_tenant_rows(body));
                let s1 = ShellView {
                    status: s.status,
                    status_err: s.status_err,
                    listing: s.listing,
                    whoami: s.whoami,
                    browse: Some(BrowseView { access: b.access, note: b.note, orgs: b.orgs, step: c.0 }),
                    quit: s.quit,
                };
                match c.1 {
                    Some(m) => spec_say(s1, m, false),
                    None => s1,
                }
            } else {
                spec_say(s, "organization index"@, true)
            },
        },
    }
}

/// After the unscoped `GET /v1/tenants` that follows picking organisation `org_index`.
pub fn on_organization_tenants(state: ShellState, org_index: usize, fetched: &Result<Json, String>) -> (r: ShellState)
    ensures
        r@ == spec_on_organization_tenants(state@, org_index, outcome_view(*fetched)),
{
    let mut st = state;
    let mut b = match st.browse {
        None => { return ShellState { status: st.status, status_err: st.status_err, listing: st.listing, whoami: st.whoami, browse: None, quit: st.quit }; },
        Some(b) => b,
    };
    match fetched {
        Err(e) => ShellState {
            status: Some(e.clone()),
            status_err: true,
            listing: st.listing,
            whoami: st.whoami,
            browse: Some(b),
            quit: st.quit,
        },
        Ok(body) => {
            let all = tenant_rows_from_body(body);
            let outcome = b.activate_organization(org_index, all.as_slice());
            let s1 = ShellState {
                status: st.status,
                status_err: st.status_err,
                listing: st.listing,
                whoami: st.whoami,
                browse: Some(b),
                quit: st.quit,
            };
            match outcome {
                Ok(Some(m)) => say(s1, m, false),
                Ok(None) => s1,
                Err(e) => say(s1, owned(e.message()), true),
            }
        },
    }
}

// ---------------------------------------------------------------------------
// The listing pickers
// ---------------------------------------------------------------------------

/// What Enter in a listing picker decides.
#[derive(Clone, Copy, Debug, PartialEq, Eq, Structural)]
pub enum ListingDecision {
    /// The picker has no rows.
    Empty,
    /// The selected row does not exist.
    InvalidSelection,
    /// Save the tenant at this row as the current tenant.
    SaveTenant(usize),
    /// Save the organisation at this row as the current organisation (unsetting the
    /// current tenant).
    SaveOrganization(usize),
}

/// Enter on row `selected` of a picker with `rows_len` rows.
pub open spec fn spec_listing_enter(kind: ListingKind, rows_len: usize, selected: usize) -> ListingDecision {
    if rows_len == 0 {
        ListingDecision::Empty
    } else if selected >= rows_len {
        ListingDecision::InvalidSelection
    } else {
        match kind {
            ListingKind::Tenants => ListingDecision::SaveTenant(selected),
            ListingKind::Organizations => ListingDecision::SaveOrganization(selected),
        }
    }
}

/// Decides Enter on row `selected` of a picker with `rows_len` rows.
pub fn listing_enter_step(kind: ListingKind, rows_len: usize, selected: usize) -> (r: ListingDecision)
    ensures
        r == spec_listing_enter(kind, rows_len, selected),
{
    if rows_len == 0 {
        ListingDecision::Empty
    } else if selected >= rows_len {
        ListingDecision::InvalidSelection
    } else {
        match kind {
            ListingKind::Tenants => ListingDecision::SaveTenant(selected),
            ListingKind::Organizations => ListingDecision::SaveOrganization(selected),
        }
    }
}

/// Enter in a listing picker: the picker closes; an empty picker says so, a row out of
/// range is refused, and a row is saved as the current tenant or organisation.
pub open spec fn spec_listing_choose(s: ShellView, sel: usize) -> (ShellView, ActionView) {
    match s.listing {
        None => (s, ActionView::Idle),
        Some(l) => {
            let s1 = ShellView { status: s.status, status_err: s.status_err, listing: None, whoami: s.whoami, browse: s.browse, quit: s.quit };
            let title = spec_listing_title(l.kind);
            let n = spec_row_count(l);
            if n == 0 {
                (spec_say(s1, spec_with_footer(title + " ("@ + l.endpoint + ")\n(No rows.)"@, l.note), false), ActionView::Idle)
            } else if sel >= n {
                (
                    spec_say(
                        s1,
                        title + " ("@ + l.endpoint + ")\n(Invalid selection; run /"@ + spec_listing_command(l.kind) + ".)"@,
                        true,
                    ),
                    ActionView::Idle,
                )
            } else {
                match l.kind {
                    ListingKind::Tenants => {
                        let row = l.tenants[sel as int];
                        (
                            s1,
                            ActionView::SaveSession(
                                ChangeView::Tenant(Some(row.id)),
                                AfterView::ListingChoice(
                                    spec_with_footer(
                                        "Current "@ + "tenant"@ + " set to `"@ + row.id + "`\n"@
                                            + spec_tenant_row_primary(row.id, row.name),
                                        l.note,
                                    ),
                                    "tenant"@,
                                    l.note,
                                ),
                            ),
                        )
                    },
                    ListingKind::Organizations => {
                        let row = l.orgs[sel as int];
                        (
                            s1,
                            ActionView::SaveSession(
                                ChangeView::Organization(row.id),
                                AfterView::ListingChoice(
                                    spec_with_footer(
                                        "Current "@ + "organization"@ + " set to `"@ + row.id + "`\n"@
                                            + spec_display_primary(row),
                                        l.note,
                                    ),
                                    "organization"@,
                                    l.note,
                                ),
                            ),
                        )
                    },
                }
            }
        },
    }
}

/// Enter on row `selected` of the listing picker.
pub fn listing_choose(state: ShellState, selected: usize) -> (r: (ShellState, SubmitAction))
    ensures
        r.0@ == spec_listing_choose(state@, selected).0,
        r.1@ == spec_listing_choose(state@, selected).1,
{
    let st = state;
    let l = match st.listing {
        None => {
            return (ShellState { status: st.status, status_err: st.status_err, listing: None, whoami: st.whoami, browse: st.browse, quit: st.quit }, SubmitAction::Idle);
        },
        Some(l) => l,
    };
    let s1 = ShellState { status: st.status, status_err: st.status_err, listing: None, whoami: st.whoami, browse: st.browse, quit: st.quit };
    let title = l.title();
    match listing_enter_step(l.kind, l.row_count(), selected) {
        ListingDecision::Empty => {
            let m = listing_empty_message(title, l.endpoint.as_str(), l.credentials_note.as_ref());
            (say(s1, m, false), SubmitAction::Idle)
        },
        ListingDecision::InvalidSelection => {
            let m = listing_invalid_selection_message(title, l.endpoint.as_str(), l.command());
            (say(s1, m, true), SubmitAction::Idle)
        },
        ListingDecision::SaveTenant(i) => {
            let row = &l.tenants[i];
            let label = tenant_row_primary(row);
            let ok = listing_choice_message("tenant", row.id.as_str(), label.as_str(), l.credentials_note.as_ref());
            (
                s1,
                SubmitAction::SaveSession {
                    change: SessionChange::Tenant(Some(row.id.clone())),
                    then: AfterSave::ListingChoice { ok, noun: owned("tenant"), note: clone_opt(&l.credentials_note) },
                },
            )
        },
        ListingDecision::SaveOrganization(i) => {
            let row = &l.organizations[i];
            let label = row.display_primary();
            let ok = listing_choice_message("organization", row.id.as_str(), label.as_str(), l.credentials_note.as_ref());
            (
                s1,
                SubmitAction::SaveSession {
                    change: SessionChange::Organization(row.id.clone()),
                    then: AfterSave::ListingChoice { ok, noun: owned("organization"), note: clone_opt(&l.credentials_note) },
                },
            )
        },
    }
}

/// Tab on the `/whoami` pane: the other view of the record; nothing else changes.
pub open spec fn spec_toggle_whoami_tab(s: ShellView) -> ShellView {
    ShellView {
        status: s.status,
        status_err: s.status_err,
        listing: s.listing,
        whoami: match s.whoami {
            Some(p) => Some(
                PaneView {
                    endpoint: p.endpoint,
                    pretty: p.pretty,
                    raw: p.raw,
                    note: p.note,
                    tab: match p.tab {
                        WhoamiJsonTab::Pretty => WhoamiJsonTab::Raw,
                        WhoamiJsonTab::Raw => WhoamiJsonTab::Pretty,
                    },
                },
            ),
            None => None,
        },
        browse: s.browse,
        quit: s.quit,
    }
}

/// Tab on the `/whoami` pane.
pub fn toggle_whoami_tab(state: ShellState) -> (r: ShellState)
    ensures
        r@ == spec_toggle_whoami_tab(state@),
{
    let st = state;
    let whoami = match st.whoami {
        Some(p) => {
            let tab = match p.tab {
                WhoamiJsonTab::Pretty => WhoamiJsonTab::Raw,
                WhoamiJsonTab::Raw => WhoamiJsonTab::Pretty,
            };
            Some(
                WhoamiOutputPane {
                    endpoint_note: p.endpoint_note,
                    pretty_json: p.pretty_json,
                    raw_json: p.raw_json,
                    credentials_note: p.credentials_note,
                    tab,
                },
            )
        },
        None => None,
    };
    ShellState { status: st.status, status_err: st.status_err, listing: st.listing, whoami, browse: st.browse, quit: st.quit }
}

// ---------------------------------------------------------------------------
// Laws
// ---------------------------------------------------------------------------

/// Choosing an organisation makes it current and unsets the current tenant; choosing a
/// tenant makes it current and keeps the organisation; new tokens keep both.
pub proof fn law_session_changes(saved: Option<SessionView>, o: Seq<char>, t: Option<Seq<char>>, a: Seq<char>, r: Seq<char>)
    ensures
        spec_apply_change(saved, ChangeView::Organization(o)).org == Some(o),
        spec_apply_change(saved, ChangeView::Organization(o)).tenant == None::<Seq<char>>,
        spec_apply_change(saved, ChangeView::Tenant(t)).tenant == t,
        saved is Some ==> spec_apply_change(saved, ChangeView::Tenant(t)).org == saved->Some_0.org,
        saved is Some ==> spec_apply_change(saved, ChangeView::Tokens(a, r)).org == saved->Some_0.org
            && spec_apply_change(saved, ChangeView::Tokens(a, r)).tenant == saved->Some_0.tenant,
{
}

/// `/projects` asks for projects only with a current tenant, and then for that tenant.
pub proof fn law_projects_need_a_tenant(s: ShellView, v: SessionView, ctx: ContextView)
    ensures
        v.tenant is None ==> spec_submit_step(s, SubmitView::Projects, Ok(Some(v)), ctx).1 == ActionView::Idle
            && spec_submit_step(s, SubmitView::Projects, Ok(Some(v)), ctx).0.status == Some(NO_CURRENT_TENANT@)
            && !spec_submit_step(s, SubmitView::Projects, Ok(Some(v)), ctx).0.status_err,
        spec_submit_step(s, SubmitView::Projects, Ok(Some(v)), ctx).0.browse is None,
        v.tenant matches Some(t) ==> spec_submit_step(s, SubmitView::Projects, Ok(Some(v)), ctx).1
            == ActionView::FetchProjects(v.access, t),
{
}

/// A non-blank command that is not `/tenants`, `/organizations`, `/browse` or `/projects`
/// closes the listing picker; one that is not `/whoami` closes the `/whoami` pane.
pub proof fn law_submit_closes_panes(
    s: ShellView,
    c: SubmitView,
    sess: Result<Option<SessionView>, Seq<char>>,
    ctx: ContextView,
)
    ensures
        !(c is Empty || c is Tenants || c is Organizations || c is Browse || c is Projects)
            ==> spec_submit_step(s, c, sess, ctx).0.listing is None,
        !(c is Empty || c is Whoami) ==> spec_submit_step(s, c, sess, ctx).0.whoami is None,
{
}

/// A command that needs the saved session does no outside work without one.
pub proof fn law_no_session_no_request(s: ShellView, c: SubmitView, ctx: ContextView, e: Seq<char>)
    requires
        spec_needs_session(c),
    ensures
        spec_submit_step(s, c, Ok(None), ctx).1 == ActionView::Idle,
        spec_submit_step(s, c, Ok(None), ctx).0.status == Some(spec_not_logged_in(spec_session_word(c))),
        spec_submit_step(s, c, Err(e), ctx) == (
            spec_say(spec_submit_step(s, c, Err(e), ctx).0, e, true),
            ActionView::Idle,
        ),
{
}

/// Enter in a listing picker always closes it; a row in range is saved, and saving it
/// makes that row's tenant or organisation current (an organisation unsets the tenant).
pub proof fn law_listing_choice_saves_row(s: ShellView, sel: usize, saved: Option<SessionView>)
    requires
        s.listing is Some,
        sel < spec_row_count(s.listing->Some_0),
    ensures
        spec_listing_choose(s, sel).0.listing is None,
        spec_listing_choose(s, sel).1 matches ActionView::SaveSession(c, _) && ({
            let l = s.listing->Some_0;
            let after = spec_apply_change(saved, c);
            match l.kind {
                ListingKind::Tenants => after.tenant == Some(l.tenants[sel as int].id),
                ListingKind::Organizations => after.org == Some(l.orgs[sel as int].id) && after.tenant is None,
            }
        }),
{
}

/// In `/browse`, choosing tenant `sel` saves it as the current tenant and, once saved,
/// asks for exactly that tenant's projects with the navigator's token.
pub proof fn law_browse_tenant_saved_then_projects(s: ShellView, sel: usize, saved: Option<SessionView>)
    requires
        s.browse matches Some(b) && b.step matches BrowseStepView::PickTenant(_, ts) && sel < ts.len(),
    ensures
        ({
            let b = s.browse->Some_0;
            let ts = b.step->PickTenant_1;
            let id = ts[sel as int].id;
            let step = spec_browse_enter(s, sel);
            &&& step.1 matches ActionView::SaveSession(c, then)
            &&& spec_apply_change(saved, c).tenant == Some(id)
            &&& spec_on_saved(step.0, then, Ok(())).1 == ActionView::FetchProjects(b.access, id)
            &&& spec_on_saved(step.0, then, Ok(())).0.browse is None
        }),
{
}

/// In `/browse`, a row out of range asks for nothing.
pub proof fn law_browse_out_of_range_requests_nothing(s: ShellView, sel: usize)
    requires
        s.browse matches Some(b) && match b.step {
            BrowseStepView::PickOrganization => sel >= b.orgs.len(),
            BrowseStepView::PickTenant(_, ts) => sel >= ts.len(),
        },
    ensures
        spec_browse_enter(s, sel).1 == ActionView::Idle,
        spec_browse_enter(s, sel).0.status_err,
{
}

/// A blank submitted line only clears the status and its error flag: the listing, the
/// `/whoami` pane, the navigator and everything else stay, and no outside work follows.
pub proof fn law_blank_line_only_clears_status(
    s: ShellView,
    sess: Result<Option<SessionView>, Seq<char>>,
    ctx: ContextView,
)
    ensures
        spec_submit_step(s, SubmitView::Empty, sess, ctx) == (
            ShellView { status: None, status_err: false, listing: s.listing, whoami: s.whoami, browse: s.browse, quit: s.quit },
            ActionView::Idle,
        ),
{
}

/// Tab twice on the `/whoami` pane gives back the shell as it was.
pub proof fn law_whoami_tab_round_trip(s: ShellView)
    ensures
        spec_toggle_whoami_tab(spec_toggle_whoami_tab(s)) == s,
{
}

} // verus!
