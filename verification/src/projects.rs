//! `GET /v1/tenants/{tenantId}/projects`: endpoint, error preview and the listing report.

use vstd::prelude::*;

use crate::api::{
    compose_report, endpoint, endpoint_url, error_body_preview, outcome_view, spec_error_preview,
    spec_report,
};
use crate::json::Json;
use crate::text::{opt_view, push_str, string_of};

verus! {

/// `/v1/tenants/{tenant_id}/projects`.
pub open spec fn projects_path(tenant_id: Seq<char>) -> Seq<char> {
    "/v1/tenants/"@ + tenant_id + "/projects"@
}

/// Full projects URL for a tenant: origin without trailing `/`, then the path.
pub fn projects_endpoint(api_origin: &str, tenant_id: &str) -> (r: String)
    ensures
        r@ == endpoint_url(api_origin@, projects_path(tenant_id@)),
{
    let mut v: Vec<char> = Vec::new();
    push_str(&mut v, "/v1/tenants/");
    push_str(&mut v, tenant_id);
    push_str(&mut v, "/projects");
    let p = string_of(&v);
    proof {
        assert(p@ =~= projects_path(tenant_id@));
    }
    endpoint(api_origin, p.as_str())
}

/// Error preview of a failed projects listing.
pub fn projects_error_body_preview(status: u16, body: &str) -> (r: String)
    requires
        100 <= status <= 999,
    ensures
        r@ == spec_error_preview(status, body@),
{
    error_body_preview(status, body)
}

/// Text for `/projects`: the banner with the endpoint, pretty JSON or the error, and the
/// credentials note.
pub fn compose_projects_report(
    api_origin: &str,
    tenant_id: &str,
    fetched: &Result<Json, String>,
    credentials_file_note: Option<String>,
) -> (r: String)
    ensures
        r@ == spec_report(
            "Projects"@,
            endpoint_url(api_origin@, projects_path(tenant_id@)),
            outcome_view(*fetched),
            opt_view(credentials_file_note),
        ),
{
    let ep = projects_endpoint(api_origin, tenant_id);
    compose_report("Projects", ep.as_str(), fetched, credentials_file_note)
}

} // verus!
