//! The `/browse` navigator: organisation → tenant, as a state machine whose listings are
//! fetched by the shell.

use vstd::prelude::*;

use crate::organizations::{orgs_view, spec_display_primary, OrgRow, OrgRowView};
use crate::tenants::{
    filter_tenants_for_organization_for_browse, rows_view, spec_filter, TenantOrgFilterMode, TenantRow,
    TenantRowView,
};
use crate::text::{chars_eq, chars_of, opt_view, push_str, string_of};

verus! {

/// Where the navigator stands.
#[derive(Clone, Debug)]
pub enum BrowseStep {
    PickOrganization,
    PickTenant {
        /// Row label derived from `/v1/organizations`.
        org_summary: String,
        tenants: Vec<TenantRow>,
    },
}

/// A navigator step as plain values.
pub enum BrowseStepView {
    PickOrganization,
    PickTenant(Seq<char>, Seq<TenantRowView>),
}

impl View for BrowseStep {
    type V = BrowseStepView;

    open spec fn view(&self) -> BrowseStepView {
        match self {
            BrowseStep::PickOrganization => BrowseStepView::PickOrganization,
            BrowseStep::PickTenant { org_summary, tenants } => BrowseStepView::PickTenant(
                org_summary@,
                rows_view(tenants@),
            ),
        }
    }
}

/// Navigation state until `/browse` settles on a tenant.
#[derive(Clone, Debug)]
pub struct BrowseSession {
    pub access_token: String,
    pub credentials_note: Option<String>,
    pub organizations: Vec<OrgRow>,
    pub step: BrowseStep,
}

/// A navigator as plain values.
pub struct BrowseView {
    pub access: Seq<char>,
    pub note: Option<Seq<char>>,
    pub orgs: Seq<OrgRowView>,
    pub step: BrowseStepView,
}

impl View for BrowseSession {
    type V = BrowseView;

    open spec fn view(&self) -> BrowseView {
        BrowseView {
            access: self.access_token@,
            note: opt_view(self.credentials_note),
            orgs: orgs_view(self.organizations@),
            step: self.step@,
        }
    }
}

/// Why a navigator step was refused.
#[derive(Clone, Copy, Debug, PartialEq, Eq, Structural)]
pub enum BrowseError {
    /// The organisation index is out of range.
    OrganizationIndex,
    /// A tenant was chosen while no tenant list is shown.
    NotAtTenantPicker,
    /// The tenant index is out of range.
    TenantIndex,
}

impl BrowseError {
    /// Message shown for the error.
    pub fn message(&self) -> (r: &'static str)
        ensures
            r@ == match self {
                BrowseError::OrganizationIndex => "organization index"@,
                BrowseError::NotAtTenantPicker => "not at tenant picker"@,
                BrowseError::TenantIndex => "tenant index"@,
            },
    {
        match self {
            BrowseError::OrganizationIndex => "organization index",
            BrowseError::NotAtTenantPicker => "not at tenant picker",
            BrowseError::TenantIndex => "tenant index",
        }
    }
}

/// Header of the tenant list for an organisation: its primary label, then its id when the
/// label is not the id.
pub open spec fn spec_org_heading(r: OrgRowView) -> Seq<char> {
    let p = spec_display_primary(r);
    if p == r.id {
        p
    } else {
        p + "   "@ + r.id
    }
}

/// Label of the tenant list when the user has no organisation.
pub open spec fn no_org_summary() -> Seq<char> {
    "All tenants (no organizations)"@
}

/// An organisation row as the navigator lists it: its label, then its id when the two differ.
pub fn org_heading(row: &OrgRow) -> (r: String)
    ensures
        r@ == spec_org_heading(row@),
{
    let primary = row.display_primary();
    let pc = chars_of(primary.as_str());
    let ic = chars_of(row.id.as_str());
    if chars_eq(&pc, &ic) {
        return primary;
    }
    let mut v = pc;
    push_str(&mut v, "   ");
    push_str(&mut v, row.id.as_str());
    string_of(&v)
}

impl BrowseSession {
    /// Starts the navigator from the organisations the API listed. Without any, it goes
    /// straight to `tenants` (all tenants of the signed-in principal, asked for in that case
    /// only, see [`crate::flow::browse_start`]); otherwise it asks for an organisation.
    pub fn begin(
        access_token: String,
        credentials_note: Option<String>,
        organizations: Vec<OrgRow>,
        tenants: Vec<TenantRow>,
    ) -> (r: Self)
        ensures
            r.access_token@ == access_token@,
            opt_view(r.credentials_note) == opt_view(credentials_note),
            orgs_view(r.organizations@) == orgs_view(organizations@),
            r.step@ == if organizations@.len() == 0 {
                BrowseStepView::PickTenant(no_org_summary(), rows_view(tenants@))
            } else {
                BrowseStepView::PickOrganization
            },
    {
        let step = if organizations.len() == 0 {
            BrowseStep::PickTenant {
                org_summary: "All tenants (no organizations)".to_owned(),
                tenants,
            }
        } else {
            BrowseStep::PickOrganization
        };
        BrowseSession { access_token, credentials_note, organizations, step }
    }

    /// After the organisation at `org_index` is chosen: shows the tenants of `all_tenants`
    /// that belong to it (browse-scoped filter: never the whole merged list when the payload
    /// links no tenant to an organisation) and returns the filter's advisory. An index out
    /// of range changes nothing.
    pub fn activate_organization(&mut self, org_index: usize, all_tenants: &[TenantRow]) -> (r:
        Result<Option<String>, BrowseError>)
        ensures
            final(self).access_token == old(self).access_token,
            final(self).credentials_note == old(self).credentials_note,
            final(self).organizations == old(self).organizations,
            org_index >= old(self).organizations@.len() ==> r == Err::<Option<String>, BrowseError>(
                BrowseError::OrganizationIndex,
            ) && final(self).step == old(self).step,
            org_index < old(self).organizations@.len() ==> {
                let c = spec_choose_org(orgs_view(old(self).organizations@), org_index as int, rows_view(all_tenants@));
                &&& r matches Ok(adv) && opt_view(adv) == c.1
                &&& final(self).step@ == c.0
            },
    {
        if org_index >= self.organizations.len() {
            return Err(BrowseError::OrganizationIndex);
        }
        let headline = org_heading(&self.organizations[org_index]);
        let (filtered, advisory) = filter_tenants_for_organization_for_browse(
            all_tenants,
            self.organizations[org_index].id.as_str(),
        );
        self.step = BrowseStep::PickTenant { org_summary: headline, tenants: filtered };
        Ok(advisory)
    }

    /// The id of the tenant chosen at `tenant_index`. [`crate::flow::browse_enter`] saves it
    /// as the current tenant and then asks for its projects.
    pub fn activate_tenant_choice(&self, tenant_index: usize) -> (r: Result<String, BrowseError>)
        ensures
            match self.step@ {
                BrowseStepView::PickOrganization => r == Err::<String, BrowseError>(
                    BrowseError::NotAtTenantPicker,
                ),
                BrowseStepView::PickTenant(_, ts) => if tenant_index < ts.len() {
                    r matches Ok(id) && id@ == ts[tenant_index as int].id
                } else {
                    r == Err::<String, BrowseError>(BrowseError::TenantIndex)
                },
            },
    {
        match &self.step {
            BrowseStep::PickOrganization => Err(BrowseError::NotAtTenantPicker),
            BrowseStep::PickTenant { tenants, .. } => {
                if tenant_index < tenants.len() {
                    Ok(tenants[tenant_index].id.clone())
                } else {
                    Err(BrowseError::TenantIndex)
                }
            },
        }
    }

    /// Esc: back to the organisations when that step existed; `false` otherwise.
    pub fn pop_to_organizations(&mut self) -> (b: bool)
        ensures
            (b, final(self).step@) == spec_pop(old(self).step@, old(self).organizations@.len()),
            final(self).access_token == old(self).access_token,
            final(self).credentials_note == old(self).credentials_note,
            final(self).organizations == old(self).organizations,
    {
        match self.step {
            BrowseStep::PickTenant { .. } => {
                if self.organizations.len() > 0 {
                    self.step = BrowseStep::PickOrganization;
                    true
                } else {
                    false
                }
            },
            _ => false,
        }
    }
}

/// The step shown after choosing the organisation at `idx` (in range), with the advisory.
pub open spec fn spec_choose_org(
    orgs: Seq<OrgRowView>,
    idx: int,
    all: Seq<TenantRowView>,
) -> (BrowseStepView, Option<Seq<char>>) {
    let row = orgs[idx];
    let f = spec_filter(all, row.id, TenantOrgFilterMode::BrowseOrganizationScoped);
    (BrowseStepView::PickTenant(spec_org_heading(row), f.0), f.1)
}

/// Esc in the navigator: whether it steps back, and the step after it.
pub open spec fn spec_pop(step: BrowseStepView, n_orgs: nat) -> (bool, BrowseStepView) {
    match step {
        BrowseStepView::PickTenant(_, _) => if n_orgs > 0 {
            (true, BrowseStepView::PickOrganization)
        } else {
            (false, step)
        },
        _ => (false, step),
    }
}

/// Choosing an organisation and then pressing Esc returns to the organisation list.
pub proof fn law_choose_then_back_returns_to_organizations(
    orgs: Seq<OrgRowView>,
    idx: int,
    all: Seq<TenantRowView>,
)
    requires
        0 <= idx < orgs.len(),
    ensures
        spec_pop(spec_choose_org(orgs, idx, all).0, orgs.len()) == (
            true,
            BrowseStepView::PickOrganization,
        ),
{
}

/// Without organisations, Esc does not leave the tenant list.
pub proof fn law_back_without_organizations_stays(step: BrowseStepView)
    ensures
        spec_pop(step, 0) == (false, step),
{
}

} // verus!
