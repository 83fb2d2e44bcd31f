//! `GET /v1/organizations`: organisation rows and the listing report.

use vstd::prelude::*;

use crate::api::{
    compose_report, endpoint, endpoint_url, error_body_preview, outcome_view, spec_error_preview,
    spec_report,
};
use crate::json::Json;
use crate::seqs::{
    dedup, isort, lemma_dedup_sorted, lemma_dedup_sub, lemma_ins_at, lemma_isort_contains,
    lemma_isort_sorted, lemma_sorted_strict, sorted_by, strict_weak,
};
use crate::tenants::{key_gt, lemma_key_gt_strict_weak, lemma_key_gt_total, listing_array, listing_items};
use crate::text::{
    chars_lt, chars_of, lower_chars, lower_seq, opt_view, str_eq, trim_seq, trim_str,
};

verus! {

/// Path of the organisations listing under the API origin.
pub const ORGANIZATIONS_PATH: &'static str = "/v1/organizations";

/// One organisation of a `GET /v1/organizations` payload.
#[derive(Clone, Debug, PartialEq, Eq)]
pub struct OrgRow {
    pub id: String,
    pub name: Option<String>,
}

/// An organisation row as plain values.
pub struct OrgRowView {
    pub id: Seq<char>,
    pub name: Option<Seq<char>>,
}

impl View for OrgRow {
    type V = OrgRowView;

    open spec fn view(&self) -> OrgRowView {
        OrgRowView { id: self.id@, name: opt_view(self.name) }
    }
}

/// The views of a sequence of organisation rows.
pub open spec fn orgs_view(s: Seq<OrgRow>) -> Seq<OrgRowView> {
    s.map_values(|r: OrgRow| r@)
}

/// Sort key: lower-cased name (empty without one), then id.
pub open spec fn spec_org_sort_key(r: OrgRowView) -> (Seq<char>, Seq<char>) {
    (
        lower_seq(
            match r.name {
                Some(n) => n,
                None => Seq::empty(),
            },
        ),
        r.id,
    )
}

/// "Greater than" between organisation rows, by their sort keys.
pub open spec fn org_gt() -> spec_fn(OrgRowView, OrgRowView) -> bool {
    |a: OrgRowView, b: OrgRowView| key_gt(spec_org_sort_key(a), spec_org_sort_key(b))
}

/// Rows with the same id.
pub open spec fn same_org_id() -> spec_fn(OrgRowView, OrgRowView) -> bool {
    |a: OrgRowView, b: OrgRowView| a.id == b.id
}

/// What a row shows first: its trimmed name when that is not blank, else its id.
pub open spec fn spec_display_primary(r: OrgRowView) -> Seq<char> {
    match r.name {
        Some(n) => if trim_seq(n).len() > 0 {
            trim_seq(n)
        } else {
            r.id
        },
        None => r.id,
    }
}

impl OrgRow {
    fn key_chars(&self) -> (r: (Vec<char>, Vec<char>))
        ensures
            (r.0@, r.1@) == spec_org_sort_key(self@),
    {
        let n: Vec<char> = match &self.name {
            Some(n) => chars_of(n.as_str()),
            None => Vec::new(),
        };
        proof {
            if self.name is None {
                assert(n@ =~= Seq::<char>::empty());
            }
        }
        (lower_chars(&n), chars_of(self.id.as_str()))
    }

    /// The sort key: lower-cased name (empty without one), then the id.
    pub fn sort_key(&self) -> (r: (String, String))
        ensures
            (r.0@, r.1@) == spec_org_sort_key(self@),
    {
        let (n, i) = self.key_chars();
        (crate::text::string_of(&n), crate::text::string_of(&i))
    }

    /// Prefers the organisation name when present, for selection rows and browse headers.
    pub fn display_primary(&self) -> (r: String)
        ensures
            r@ == spec_display_primary(self@),
    {
        match &self.name {
            Some(n) => {
                let t = trim_str(n.as_str());
                if !t.as_str().is_empty() {
                    return t;
                }
            },
            None => {},
        }
        self.id.clone()
    }
}

/// The row of one payload item: a non-blank trimmed id and an optional non-blank trimmed
/// name.
pub open spec fn spec_org_item(item: Json) -> Option<OrgRowView> {
    match item.str_member("id"@) {
        None => None,
        Some(raw) => if trim_seq(raw).len() == 0 {
            None
        } else {
            Some(
                OrgRowView {
                    id: trim_seq(raw),
                    name: match item.str_member("name"@) {
                        Some(n) => if trim_seq(n).len() > 0 {
                            Some(trim_seq(n))
                        } else {
                            None
                        },
                        None => None,
                    },
                },
            )
        },
    }
}

/// The rows read from the listed items, in order (items without an id give none).
pub open spec fn parsed_orgs(items: Seq<Json>) -> Seq<OrgRowView>
    decreases items.len(),
{
    if items.len() == 0 {
        Seq::empty()
    } else {
        let rest = parsed_orgs(items.drop_last());
        match spec_org_item(items.last()) {
            Some(r) => rest.push(r),
            None => rest,
        }
    }
}

/// `organization_rows_from_body`: rows sorted by name then id (stable), consecutive
/// duplicates by id dropped.
pub open spec fn spec_org_rows(body: Json) -> Seq<OrgRowView> {
    dedup(isort(parsed_orgs(listing_items(body, "organizations"@)), org_gt()), same_org_id())
}

fn org_item(item: &Json) -> (r: Option<OrgRow>)
    ensures
        match r {
            Some(row) => spec_org_item(*item) == Some(row@),
            None => spec_org_item(*item) is None,
        },
{
    let raw = match item.get_str("id") {
        Some(raw) => raw,
        None => return None,
    };
    let id = trim_str(raw.as_str());
    if id.as_str().is_empty() {
        return None;
    }
    let name = match item.get_str("name") {
        Some(n) => {
            let t = trim_str(n.as_str());
            if t.as_str().is_empty() {
                None
            } else {
                Some(t)
            }
        },
        None => None,
    };
    Some(OrgRow { id, name })
}

fn org_key_after(a: &(Vec<char>, Vec<char>), b: &(Vec<char>, Vec<char>)) -> (r: bool)
    ensures
        r == key_gt((a.0@, a.1@), (b.0@, b.1@)),
{
    if chars_lt(&b.0, &a.0) {
        true
    } else if chars_lt(&a.0, &b.0) {
        false
    } else {
        proof {
            crate::text::lemma_seq_lt_total(a.0@, b.0@);
        }
        chars_lt(&b.1, &a.1)
    }
}

fn org_insert_position(out: &Vec<OrgRow>, kx: &(Vec<char>, Vec<char>), x: Ghost<OrgRowView>) -> (j: usize)
    requires
        (kx.0@, kx.1@) == spec_org_sort_key(x@),
    ensures
        j <= out@.len(),
        forall|i: int| 0 <= i < j ==> !(org_gt())(#[trigger] orgs_view(out@)[i], x@),
        j == out@.len() || (org_gt())(orgs_view(out@)[j as int], x@),
{
    let mut j: usize = 0;
    while j < out.len() && !org_key_after(&out[j].key_chars(), kx)
        invariant
            j <= out@.len(),
            (kx.0@, kx.1@) == spec_org_sort_key(x@),
            forall|i: int| 0 <= i < j ==> !(org_gt())(#[trigger] orgs_view(out@)[i], x@),
        decreases out@.len() - j,
    {
        j = j + 1;
    }
    j
}

fn sort_orgs(v: Vec<OrgRow>) -> (r: Vec<OrgRow>)
    ensures
        orgs_view(r@) == isort(orgs_view(v@), org_gt()),
{
    let ghost orig = v@;
    let mut src = v;
    let mut out: Vec<OrgRow> = Vec::new();
    let ghost mut k: int = 0;
    while src.len() > 0
        invariant
            0 <= k <= orig.len(),
            src@ == orig.skip(k),
            orgs_view(out@) == isort(orgs_view(orig).take(k), org_gt()),
        decreases src@.len(),
    {
        let x = src.remove(0);
        proof {
            assert(x == orig[k]);
        }
        let kx = x.key_chars();
        let j = org_insert_position(&out, &kx, Ghost(x@));
        proof {
            lemma_ins_at(orgs_view(out@), x@, org_gt(), j as int);
            assert(orgs_view(orig).take(k + 1).drop_last() =~= orgs_view(orig).take(k));
            assert(orgs_view(orig).take(k + 1).last() == x@);
        }
        let ghost before = out@;
        out.insert(j, x);
        proof {
            assert(orgs_view(out@) =~= orgs_view(before).take(j as int) + seq![x@] + orgs_view(
                before,
            ).skip(j as int));
            assert(orig.skip(k).drop_first() =~= orig.skip(k + 1));
            k = k + 1;
        }
    }
    proof {
        assert(orgs_view(orig).take(orig.len() as int) =~= orgs_view(orig));
    }
    out
}

fn dedup_orgs(v: Vec<OrgRow>) -> (r: Vec<OrgRow>)
    ensures
        orgs_view(r@) == dedup(orgs_view(v@), same_org_id()),
{
    let ghost orig = v@;
    let mut src = v;
    let mut out: Vec<OrgRow> = Vec::new();
    let ghost mut k: int = 0;
    while src.len() > 0
        invariant
            0 <= k <= orig.len(),
            src@ == orig.skip(k),
            orgs_view(out@) == dedup(orgs_view(orig).take(k), same_org_id()),
        decreases src@.len(),
    {
        let x = src.remove(0);
        proof {
            assert(x == orig[k]);
            assert(orgs_view(orig).take(k + 1).drop_last() =~= orgs_view(orig).take(k));
            assert(orgs_view(orig).take(k + 1).last() == x@);
            assert(orig.skip(k).drop_first() =~= orig.skip(k + 1));
        }
        let keep_it = if out.len() == 0 {
            true
        } else {
            !str_eq(x.id.as_str(), out[out.len() - 1].id.as_str())
        };
        if keep_it {
            let ghost before = out@;
            out.push(x);
            proof {
                assert(orgs_view(out@) =~= orgs_view(before).push(x@));
            }
        }
        proof {
            k = k + 1;
        }
    }
    proof {
        assert(orgs_view(orig).take(orig.len() as int) =~= orgs_view(orig));
    }
    out
}

/// The organisation rows read from a listing come sorted by their sort key (lower-cased
/// name, then id), and no two neighbouring rows share an id.
pub proof fn law_organization_rows_sorted(body: Json)
    ensures
        sorted_by(spec_org_rows(body), org_gt()),
        forall|i: int|
            0 <= i < spec_org_rows(body).len() - 1 ==> (#[trigger] spec_org_rows(body)[i + 1]).id
                != spec_org_rows(body)[i].id,
{
    let parsed = parsed_orgs(listing_items(body, "organizations"@));
    lemma_key_gt_strict_weak();
    assert(strict_weak(org_gt()));
    lemma_isort_sorted(parsed, org_gt());
    lemma_dedup_sorted(isort(parsed, org_gt()), org_gt(), same_org_id());
    lemma_dedup_sub(isort(parsed, org_gt()), same_org_id());
}

/// Every parsed organisation comes from an item of the listing.
pub proof fn lemma_parsed_orgs_from_items(items: Seq<Json>)
    ensures
        forall|i: int| #![trigger parsed_orgs(items)[i]] 0 <= i < parsed_orgs(items).len() ==> exists|k: int| 0 <= k < items.len()
            && spec_org_item(#[trigger] items[k]) == Some(parsed_orgs(items)[i]),
    decreases items.len(),
{
    if items.len() > 0 {
        let p = items.drop_last();
        lemma_parsed_orgs_from_items(p);
        assert forall|i: int| #![trigger parsed_orgs(items)[i]] 0 <= i < parsed_orgs(items).len() implies exists|k: int| 0 <= k < items.len()
            && spec_org_item(#[trigger] items[k]) == Some(parsed_orgs(items)[i]) by {
            if i < parsed_orgs(p).len() {
                let k = choose|k: int| 0 <= k < p.len() && spec_org_item(#[trigger] p[k]) == Some(parsed_orgs(p)[i]);
                assert(items[k] == p[k]);
            } else {
                assert(spec_org_item(items[items.len() - 1]) == Some(parsed_orgs(items)[i]));
            }
        }
    }
}

/// The organisations read from a listing are strictly increasing by (lower-cased name,
/// id), each is the row of an item of the listing (`organizations` array, else the root
/// array) with a non-empty trimmed id and a name that is absent or non-empty and trimmed;
/// without such an array there are none.
pub proof fn law_organization_rows_strict_from_items(body: Json)
    ensures
        forall|i: int, j: int| 0 <= i < j < spec_org_rows(body).len() ==> key_gt(
            spec_org_sort_key(#[trigger] spec_org_rows(body)[j]),
            spec_org_sort_key(#[trigger] spec_org_rows(body)[i]),
        ),
        forall|i: int| #![trigger spec_org_rows(body)[i]] 0 <= i < spec_org_rows(body).len() ==> exists|k: int|
            0 <= k < listing_items(body, "organizations"@).len()
            && spec_org_item(#[trigger] listing_items(body, "organizations"@)[k]) == Some(spec_org_rows(body)[i]),
        forall|i: int| 0 <= i < spec_org_rows(body).len() ==> (#[trigger] spec_org_rows(body)[i]).id.len() > 0
            && (spec_org_rows(body)[i].name matches Some(n) ==> n.len() > 0),
        listing_items(body, "organizations"@).len() == 0 ==> spec_org_rows(body).len() == 0,
{
    let items = listing_items(body, "organizations"@);
    let parsed = parsed_orgs(items);
    let rows = spec_org_rows(body);
    law_organization_rows_sorted(body);
    lemma_key_gt_strict_weak();
    assert(strict_weak(org_gt()));
    assert forall|k: int| 0 <= k < rows.len() - 1 implies #[trigger] (org_gt())(rows[k + 1], rows[k]) by {
        assert(!(org_gt())(rows[k], rows[k + 1]));
        assert(rows[k + 1].id != rows[k].id);
        lemma_key_gt_total(spec_org_sort_key(rows[k + 1]), spec_org_sort_key(rows[k]));
    }
    lemma_sorted_strict(rows, org_gt());
    lemma_parsed_orgs_from_items(items);
    lemma_dedup_sub(isort(parsed, org_gt()), same_org_id());
    assert forall|i: int| #![trigger rows[i]] 0 <= i < rows.len() implies exists|k: int| 0 <= k < items.len()
        && spec_org_item(#[trigger] items[k]) == Some(rows[i]) by {
        assert(isort(parsed, org_gt()).contains(rows[i]));
        lemma_isort_contains(parsed, org_gt(), rows[i]);
        let w = choose|w: int| 0 <= w < parsed.len() && parsed[w] == rows[i];
        let k = choose|k: int| 0 <= k < items.len() && spec_org_item(#[trigger] items[k]) == Some(parsed[w]);
    }
    assert forall|i: int| 0 <= i < rows.len() implies (#[trigger] rows[i]).id.len() > 0 && (rows[i].name matches Some(n) ==> n.len() > 0) by {
        let k = choose|k: int| 0 <= k < items.len() && spec_org_item(#[trigger] items[k]) == Some(rows[i]);
    }
    if items.len() == 0 {
        assert(parsed.len() == 0);
        assert(isort(parsed, org_gt()).len() == 0) by {
            if isort(parsed, org_gt()).len() > 0 {
                lemma_isort_contains(parsed, org_gt(), isort(parsed, org_gt())[0]);
            }
        }
        assert(rows.len() == 0) by {
            if rows.len() > 0 {
                assert(isort(parsed, org_gt()).contains(rows[0]));
            }
        }
    }
}

/// The organisations read from a listing are in case-insensitive name order: along the
/// list the ASCII-lower-cased names (empty without one) strictly increase, or stay equal
/// while the ids strictly increase.
pub proof fn law_organization_rows_in_case_insensitive_name_order(body: Json)
    ensures
        forall|i: int, j: int| 0 <= i < j < spec_org_rows(body).len() ==> ({
            let a = #[trigger] spec_org_rows(body)[i];
            let b = #[trigger] spec_org_rows(body)[j];
            let na = match a.name { Some(n) => n, None => Seq::<char>::empty() };
            let nb = match b.name { Some(n) => n, None => Seq::<char>::empty() };
            crate::text::seq_lt(lower_seq(na), lower_seq(nb)) || (lower_seq(na) == lower_seq(nb)
                && crate::text::seq_lt(a.id, b.id))
        }),
{
    law_organization_rows_strict_from_items(body);
    let rows = spec_org_rows(body);
    assert forall|i: int, j: int| 0 <= i < j < rows.len() implies ({
        let a = #[trigger] rows[i];
        let b = #[trigger] rows[j];
        let na = match a.name { Some(n) => n, None => Seq::<char>::empty() };
        let nb = match b.name { Some(n) => n, None => Seq::<char>::empty() };
        crate::text::seq_lt(lower_seq(na), lower_seq(nb)) || (lower_seq(na) == lower_seq(nb)
            && crate::text::seq_lt(a.id, b.id))
    }) by {
        assert(key_gt(spec_org_sort_key(rows[j]), spec_org_sort_key(rows[i])));
    }
}

/// Organisations of a `GET /v1/organizations` payload (`organizations` array or a root
/// array): items with a non-blank string id, sorted by lower-cased name then id,
/// consecutive duplicates by id dropped.
pub fn organization_rows_from_body(body: &Json) -> (r: Vec<OrgRow>)
    ensures
        orgs_view(r@) == spec_org_rows(*body),
{
    let mut out: Vec<OrgRow> = Vec::new();
    let ghost items = listing_items(*body, "organizations"@);
    match listing_array(body, "organizations") {
        Some(a) => {
            let mut i: usize = 0;
            while i < a.len()
                invariant
                    i <= a@.len(),
                    a@ == items,
                    orgs_view(out@) == parsed_orgs(items.take(i as int)),
                decreases a@.len() - i,
            {
                proof {
                    assert(items.take(i + 1).drop_last() =~= items.take(i as int));
                    assert(items.take(i + 1).last() == items[i as int]);
                }
                match org_item(&a[i]) {
                    Some(row) => {
                        let ghost before = out@;
                        out.push(row);
                        proof {
                            assert(orgs_view(out@) =~= orgs_view(before).push(row@));
                        }
                    },
                    None => {},
                }
                i = i + 1;
            }
            proof {
                assert(items.take(items.len() as int) =~= items);
            }
        },
        None => {
            proof {
                assert(orgs_view(out@) =~= parsed_orgs(items));
            }
        },
    }
    let sorted = sort_orgs(out);
    dedup_orgs(sorted)
}

/// Error preview of a failed `GET /v1/organizations`.
pub fn organizations_error_body_preview(status: u16, body: &str) -> (r: String)
    requires
        100 <= status <= 999,
    ensures
        r@ == spec_error_preview(status, body@),
{
    error_body_preview(status, body)
}

/// Text for `/organizations`: the banner with the endpoint, pretty JSON or the error, and
/// the credentials note.
pub fn compose_organizations_report(
    api_origin: &str,
    fetched: &Result<Json, String>,
    credentials_file_note: Option<String>,
) -> (r: String)
    ensures
        r@ == spec_report(
            "Organizations"@,
            endpoint_url(api_origin@, "/v1/organizations"@),
            outcome_view(*fetched),
            opt_view(credentials_file_note),
        ),
{
    let ep = endpoint(api_origin, ORGANIZATIONS_PATH);
    compose_report("Organizations", ep.as_str(), fetched, credentials_file_note)
}

} // verus!
