//! `GET /v1/tenants`: tenant rows, organisation linkage and the organisation filter.

use vstd::prelude::*;

use crate::api::{
    compose_report, error_body_preview, outcome_view, spec_error_preview,
    spec_report,
};
use crate::json::Json;
use crate::urls::{pairs_view, spec_url_with_pairs, url_with_pairs};
use crate::seqs::{
    dedup, isort, keep, lemma_dedup_sorted, lemma_dedup_sub, lemma_ins_at, lemma_isort_sorted,
    lemma_isort_contains, lemma_keep_all, lemma_keep_sub, lemma_sorted_strict, sorted_by, strict_weak,
};
use crate::text::{
    lemma_dedup_strictly_ascending, lemma_isort_ascending, lemma_seq_lt_asymmetric,
    lemma_seq_lt_irreflexive, lemma_seq_lt_total, lemma_seq_lt_transitive, strictly_ascending,
    opt_view, chars_lt, chars_of, lower_chars, lower_seq, push_str, seq_lt, sort_dedup_strings, str_eq,
    str_gt, str_same, string_of, strs_view, trim_end_char, trim_end_char_seq, trim_seq,
    trim_str,
};

verus! {

/// Path of the tenants listing under the API origin.
pub const TENANTS_PATH: &'static str = "/v1/tenants";

/// One tenant of a `GET /v1/tenants` payload.
#[derive(Clone, Debug, PartialEq, Eq)]
pub struct TenantRow {
    pub id: String,
    pub name: Option<String>,
    pub organization_id: Option<String>,
    /// Set when the payload includes `organizationIds`; `Some([])` means the merged list did
    /// not associate that tenant with an organisation-linked slice.
    pub organization_ids: Option<Vec<String>>,
}

/// A tenant row as plain text values.
pub struct TenantRowView {
    pub id: Seq<char>,
    pub name: Option<Seq<char>>,
    pub organization_id: Option<Seq<char>>,
    pub organization_ids: Option<Seq<Seq<char>>>,
}

impl View for TenantRow {
    type V = TenantRowView;

    open spec fn view(&self) -> TenantRowView {
        TenantRowView {
            id: self.id@,
            name: opt_view(self.name),
            organization_id: opt_view(self.organization_id),
            organization_ids: match self.organization_ids {
                Some(v) => Some(strs_view(v@)),
                None => None,
            },
        }
    }
}

/// The views of a sequence of rows.
pub open spec fn rows_view(s: Seq<TenantRow>) -> Seq<TenantRowView> {
    s.map_values(|r: TenantRow| r@)
}

/// `TenantRow::sort_key`: lower-cased trimmed name (empty without one), then the id.
pub open spec fn spec_sort_key(r: TenantRowView) -> (Seq<char>, Seq<char>) {
    let n = match r.name {
        Some(n) => trim_seq(n),
        None => Seq::empty(),
    };
    (lower_seq(n), r.id)
}

/// `a`'s sort key is greater than `b`'s (tuple order of two strings).
pub open spec fn key_gt(a: (Seq<char>, Seq<char>), b: (Seq<char>, Seq<char>)) -> bool {
    seq_lt(b.0, a.0) || (a.0 == b.0 && seq_lt(b.1, a.1))
}

/// `key_gt` on sort keys is a strict weak order (indeed the strict lexicographic order).
pub proof fn lemma_key_gt_strict_weak()
    ensures
        forall|a: (Seq<char>, Seq<char>), b: (Seq<char>, Seq<char>)|
            #[trigger] key_gt(a, b) ==> !key_gt(b, a),
        forall|a: (Seq<char>, Seq<char>), b: (Seq<char>, Seq<char>), c: (Seq<char>, Seq<char>)|
            #![trigger key_gt(a, b), key_gt(b, c)]
            !key_gt(a, b) && !key_gt(b, c) ==> !key_gt(a, c),
{
    assert forall|a: (Seq<char>, Seq<char>), b: (Seq<char>, Seq<char>)|
        #[trigger] key_gt(a, b) implies !key_gt(b, a) by {
        lemma_seq_lt_asymmetric(a.0, b.0);
        lemma_seq_lt_asymmetric(a.1, b.1);
        lemma_seq_lt_irreflexive(a.0);
    }
    assert forall|a: (Seq<char>, Seq<char>), b: (Seq<char>, Seq<char>), c: (Seq<char>, Seq<char>)|
        #![trigger key_gt(a, b), key_gt(b, c)]
        !key_gt(a, b) && !key_gt(b, c) implies !key_gt(a, c) by {
        lemma_seq_lt_total(a.0, b.0);
        lemma_seq_lt_total(b.0, c.0);
        lemma_seq_lt_total(a.1, b.1);
        lemma_seq_lt_total(b.1, c.1);
        lemma_seq_lt_irreflexive(a.0);
        lemma_seq_lt_irreflexive(a.1);
        if seq_lt(a.0, b.0) && seq_lt(b.0, c.0) {
            lemma_seq_lt_transitive(a.0, b.0, c.0);
        }
        if seq_lt(a.0, c.0) {
            lemma_seq_lt_asymmetric(a.0, c.0);
        }
        if seq_lt(a.1, b.1) && seq_lt(b.1, c.1) {
            lemma_seq_lt_transitive(a.1, b.1, c.1);
        }
        if seq_lt(a.1, c.1) {
            lemma_seq_lt_asymmetric(a.1, c.1);
        }
        if a.0 == c.0 && seq_lt(a.0, b.0) {
            lemma_seq_lt_asymmetric(a.0, b.0);
        }
        if a.0 == c.0 && seq_lt(b.0, c.0) {
            lemma_seq_lt_asymmetric(b.0, c.0);
        }
    }
}

/// Row order used when listing tenants.
pub open spec fn row_gt() -> spec_fn(TenantRowView, TenantRowView) -> bool {
    |a: TenantRowView, b: TenantRowView| key_gt(spec_sort_key(a), spec_sort_key(b))
}

/// Rows with the same id.
pub open spec fn same_id() -> spec_fn(TenantRowView, TenantRowView) -> bool {
    |a: TenantRowView, b: TenantRowView| a.id == b.id
}

// ---------------------------------------------------------------------------
// Reading a payload
// ---------------------------------------------------------------------------

/// The first of `keys` whose member is a string that is not blank, trimmed.
pub open spec fn first_nonblank_member(item: Json, keys: Seq<Seq<char>>) -> Option<Seq<char>>
    decreases keys.len(),
{
    if keys.len() == 0 {
        None
    } else {
        match item.str_member(keys[0]) {
            Some(v) => if trim_seq(v).len() > 0 {
                Some(trim_seq(v))
            } else {
                first_nonblank_member(item, keys.drop_first())
            },
            None => first_nonblank_member(item, keys.drop_first()),
        }
    }
}

/// Members that may hold a tenant's name, in the order they are tried.
pub open spec fn name_keys() -> Seq<Seq<char>> {
    seq!["name"@, "title"@, "displayName"@, "display_name"@]
}

/// Members that may hold a tenant's organisation id, in the order they are tried.
pub open spec fn org_keys() -> Seq<Seq<char>> {
    seq![
        "organization_id"@,
        "organizationId"@,
        "org_id"@,
        "organizationUUID"@,
        "organizationUuid"@,
    ]
}

/// The string elements of an array that are not blank, trimmed, in order.
pub open spec fn nonblank_strs(a: Seq<Json>) -> Seq<Seq<char>>
    decreases a.len(),
{
    if a.len() == 0 {
        Seq::empty()
    } else {
        let rest = nonblank_strs(a.drop_last());
        match a.last().spec_as_str() {
            Some(s) => if trim_seq(s).len() > 0 {
                rest.push(trim_seq(s))
            } else {
                rest
            },
            None => rest,
        }
    }
}

/// Sorted, de-duplicated organisation ids of an `organizationIds` array.
pub open spec fn clean_ids(a: Seq<Json>) -> Seq<Seq<char>> {
    dedup(isort(nonblank_strs(a), str_gt()), str_same())
}

/// The `organizationIds` (or `organization_ids`) array of a tenant, cleaned.
pub open spec fn spec_org_ids_array(item: Json) -> Option<Seq<Seq<char>>> {
    match item.array_member("organizationIds"@) {
        Some(a) => Some(clean_ids(a)),
        None => match item.array_member("organization_ids"@) {
            Some(a) => Some(clean_ids(a)),
            None => None,
        },
    }
}

/// A scalar organisation id of a tenant (several spellings, then `organization.id`).
pub open spec fn spec_org_id_hint(item: Json) -> Option<Seq<char>> {
    match first_nonblank_member(item, org_keys()) {
        Some(s) => Some(s),
        None => match item.spec_get("organization"@) {
            Some(o) => match o.str_member("id"@) {
                Some(v) => if trim_seq(v).len() > 0 {
                    Some(trim_seq(v))
                } else {
                    None
                },
                None => None,
            },
            None => None,
        },
    }
}

/// The row that one payload item gives, if it has a non-blank string id.
pub open spec fn spec_item_row(item: Json) -> Option<TenantRowView> {
    match item.str_member("id"@) {
        None => None,
        Some(raw) => {
            let id = trim_seq(raw);
            if id.len() == 0 {
                None
            } else {
                let scalar = spec_org_id_hint(item);
                let ids = match spec_org_ids_array(item) {
                    Some(v) => Some(v),
                    None => match scalar {
                        Some(s) => Some(seq![s]),
                        None => None,
                    },
                };
                let oid = match scalar {
                    Some(s) => Some(s),
                    None => match ids {
                        Some(v) => if v.len() > 0 {
                            Some(v[0])
                        } else {
                            None
                        },
                        None => None,
                    },
                };
                Some(
                    TenantRowView {
                        id,
                        name: first_nonblank_member(item, name_keys()),
                        organization_id: oid,
                        organization_ids: ids,
                    },
                )
            }
        },
    }
}

/// The rows of the items, in payload order.
pub open spec fn parsed_rows(items: Seq<Json>) -> Seq<TenantRowView>
    decreases items.len(),
{
    if items.len() == 0 {
        Seq::empty()
    } else {
        let rest = parsed_rows(items.drop_last());
        match spec_item_row(items.last()) {
            Some(r) => rest.push(r),
            None => rest,
        }
    }
}

/// The items of a listing: the `key` array, else a root array, else nothing.
pub open spec fn listing_items(body: Json, key: Seq<char>) -> Seq<Json> {
    match body.array_member(key) {
        Some(a) => a,
        None => match body.spec_as_array() {
            Some(a) => a,
            None => Seq::empty(),
        },
    }
}

/// `tenant_rows_from_body`: rows sorted by [`spec_sort_key`] (stable), then consecutive
/// rows with the same id dropped.
pub open spec fn spec_tenant_rows(body: Json) -> Seq<TenantRowView> {
    dedup(isort(parsed_rows(listing_items(body, "tenants"@)), row_gt()), same_id())
}

/// The first of `keys` whose member is a non-blank string, trimmed.
pub fn first_nonblank(item: &Json, keys: &[&str]) -> (r: Option<String>)
    ensures
        opt_view(r) == first_nonblank_member(*item, keys@.map_values(|k: &str| k@)),
{
    let ghost kv = keys@.map_values(|k: &str| k@);
    let mut i: usize = 0;
    proof {
        assert(kv.skip(0) =~= kv);
    }
    while i < keys.len()
        invariant
            i <= keys@.len(),
            kv == keys@.map_values(|k: &str| k@),
            first_nonblank_member(*item, kv) == first_nonblank_member(*item, kv.skip(i as int)),
        decreases keys@.len() - i,
    {
        proof {
            assert(kv.skip(i as int).drop_first() =~= kv.skip(i + 1));
            assert(kv.skip(i as int)[0] == keys@[i as int]@);
        }
        match item.get_str(keys[i]) {
            Some(v) => {
                let t = trim_str(v.as_str());
                if !t.as_str().is_empty() {
                    return Some(t);
                }
            },
            None => {},
        }
        i = i + 1;
    }
    None
}

/// The trimmed, non-blank string elements of `a`.
fn nonblank_strings(a: &Vec<Json>) -> (r: Vec<String>)
    ensures
        strs_view(r@) == nonblank_strs(a@),
{
    let mut out: Vec<String> = Vec::new();
    let mut i: usize = 0;
    while i < a.len()
        invariant
            i <= a@.len(),
            strs_view(out@) == nonblank_strs(a@.take(i as int)),
        decreases a@.len() - i,
    {
        proof {
            assert(a@.take(i + 1).drop_last() =~= a@.take(i as int));
            assert(a@.take(i + 1).last() == a@[i as int]);
        }
        match a[i].as_str() {
            Some(s) => {
                let t = trim_str(s.as_str());
                if !t.as_str().is_empty() {
                    let ghost before = out@;
                    out.push(t);
                    proof {
                        assert(strs_view(out@) =~= strs_view(before).push(t@));
                    }
                }
            },
            None => {},
        }
        i = i + 1;
    }
    proof {
        assert(a@.take(a@.len() as int) =~= a@);
    }
    out
}

/// `organizationIds` / `organization_ids` of a tenant item, cleaned.
fn org_ids_array(item: &Json) -> (r: Option<Vec<String>>)
    ensures
        match r {
            Some(v) => spec_org_ids_array(*item) == Some(strs_view(v@)),
            None => spec_org_ids_array(*item) is None,
        },
{
    let a = match item.get_array("organizationIds") {
        Some(a) => Some(a),
        None => item.get_array("organization_ids"),
    };
    match a {
        Some(a) => {
            let ids = nonblank_strings(a);
            Some(sort_dedup_strings(&ids))
        },
        None => None,
    }
}

/// A scalar organisation id of a tenant item.
fn org_id_hint(item: &Json) -> (r: Option<String>)
    ensures
        opt_view(r) == spec_org_id_hint(*item),
{
    let keys = ["organization_id", "organizationId", "org_id", "organizationUUID", "organizationUuid"];
    proof {
        assert(keys@.map_values(|k: &str| k@) =~= org_keys());
    }
    match first_nonblank(item, &keys) {
        Some(s) => Some(s),
        None => match item.get("organization") {
            Some(o) => match o.get_str("id") {
                Some(v) => {
                    let t = trim_str(v.as_str());
                    if t.as_str().is_empty() {
                        None
                    } else {
                        Some(t)
                    }
                },
                None => None,
            },
            None => None,
        },
    }
}

/// The row of one payload item.
fn item_row(item: &Json) -> (r: Option<TenantRow>)
    ensures
        match r {
            Some(row) => spec_item_row(*item) == Some(row@),
            None => spec_item_row(*item) is None,
        },
{
    let raw = match item.get_str("id") {
        Some(raw) => raw,
        None => return None,
    };
    let id = trim_str(raw.as_str());
    if id.as_str().is_empty() {
        return None;
    }
    let nkeys = ["name", "title", "displayName", "display_name"];
    proof {
        assert(nkeys@.map_values(|k: &str| k@) =~= name_keys());
    }
    let name = first_nonblank(item, &nkeys);
    let scalar = org_id_hint(item);
    let ids: Option<Vec<String>> = match org_ids_array(item) {
        Some(v) => Some(v),
        None => match &scalar {
            Some(s) => {
                let mut one: Vec<String> = Vec::new();
                one.push(s.clone());
                proof {
                    assert(strs_view(one@) =~= seq![s@]);
                }
                Some(one)
            },
            None => None,
        },
    };
    let oid: Option<String> = match scalar {
        Some(s) => Some(s),
        None => match &ids {
            Some(v) => if v.len() > 0 {
                Some(v[0].clone())
            } else {
                None
            },
            None => None,
        },
    };
    let row = TenantRow { id, name, organization_id: oid, organization_ids: ids };
    proof {
        assert(spec_item_row(*item) == Some(row@));
    }
    Some(row)
}

/// The items of a listing payload (`key` array or root array).
pub fn listing_array<'a>(body: &'a Json, key: &str) -> (r: Option<&'a Vec<Json>>)
    ensures
        match r {
            Some(a) => a@ == listing_items(*body, key@),
            None => listing_items(*body, key@) == Seq::<Json>::empty(),
        },
{
    match body.get_array(key) {
        Some(a) => Some(a),
        None => body.as_array(),
    }
}

// ---------------------------------------------------------------------------
// Sorting rows
// ---------------------------------------------------------------------------

impl TenantRow {
    /// The sort key as characters.
    fn key_chars(&self) -> (r: (Vec<char>, Vec<char>))
        ensures
            (r.0@, r.1@) == spec_sort_key(self@),
    {
        let n: Vec<char> = match &self.name {
            Some(n) => {
                let t = trim_str(n.as_str());
                chars_of(t.as_str())
            },
            None => Vec::new(),
        };
        let l = lower_chars(&n);
        let id = chars_of(self.id.as_str());
        proof {
            if self.name is None {
                assert(n@ =~= Seq::<char>::empty());
            }
        }
        (l, id)
    }

    /// Key used to order tenant rows: lower-cased trimmed name (empty when missing), then id.
    pub fn sort_key(&self) -> (r: (String, String))
        ensures
            (r.0@, r.1@) == spec_sort_key(self@),
    {
        let (a, b) = self.key_chars();
        (string_of(&a), string_of(&b))
    }

    /// A copy of the row with the same text values.
    pub fn copy_row(&self) -> (r: TenantRow)
        ensures
            r@ == self@,
    {
        let ids = match &self.organization_ids {
            Some(v) => Some(copy_strings(v)),
            None => None,
        };
        TenantRow {
            id: self.id.clone(),
            name: match &self.name {
                Some(n) => Some(n.clone()),
                None => None,
            },
            organization_id: match &self.organization_id {
                Some(n) => Some(n.clone()),
                None => None,
            },
            organization_ids: ids,
        }
    }
}

/// A copy of a vector of strings.
pub fn copy_strings(v: &Vec<String>) -> (r: Vec<String>)
    ensures
        strs_view(r@) == strs_view(v@),
{
    let mut out: Vec<String> = Vec::new();
    let mut i: usize = 0;
    while i < v.len()
        invariant
            i <= v@.len(),
            strs_view(out@) =~= strs_view(v@.take(i as int)),
        decreases v@.len() - i,
    {
        let c = v[i].clone();
        let ghost before = out@;
        out.push(c);
        proof {
            assert(strs_view(out@) =~= strs_view(before).push(c@));
            assert(v@.take(i + 1) =~= v@.take(i as int).push(v@[i as int]));
        }
        i = i + 1;
    }
    proof {
        assert(v@.take(v@.len() as int) =~= v@);
    }
    out
}

/// A copy of a slice of rows.
pub fn copy_rows(v: &[TenantRow]) -> (r: Vec<TenantRow>)
    ensures
        rows_view(r@) == rows_view(v@),
{
    let mut out: Vec<TenantRow> = Vec::new();
    let mut i: usize = 0;
    while i < v.len()
        invariant
            i <= v@.len(),
            rows_view(out@) =~= rows_view(v@.take(i as int)),
        decreases v@.len() - i,
    {
        let c = v[i].copy_row();
        let ghost before = out@;
        out.push(c);
        proof {
            assert(rows_view(out@) =~= rows_view(before).push(c@));
            assert(v@.take(i + 1) =~= v@.take(i as int).push(v@[i as int]));
        }
        i = i + 1;
    }
    proof {
        assert(v@.take(v@.len() as int) =~= v@);
    }
    out
}

/// Whether key `a` is greater than key `b`.
fn key_after(a: &(Vec<char>, Vec<char>), b: &(Vec<char>, Vec<char>)) -> (r: bool)
    ensures
        r == key_gt((a.0@, a.1@), (b.0@, b.1@)),
{
    if chars_lt(&b.0, &a.0) {
        true
    } else if chars_lt(&a.0, &b.0) {
        false
    } else {
        proof {
            crate::text::lemma_seq_lt_total(a.0@, b.0@);
        }
        chars_lt(&b.1, &a.1)
    }
}

/// First position in `out` whose row sorts after the key `kx`.
fn row_insert_position(out: &Vec<TenantRow>, kx: &(Vec<char>, Vec<char>), x: Ghost<TenantRowView>) -> (j: usize)
    requires
        (kx.0@, kx.1@) == spec_sort_key(x@),
    ensures
        j <= out@.len(),
        forall|i: int| 0 <= i < j ==> !(row_gt())(#[trigger] rows_view(out@)[i], x@),
        j == out@.len() || (row_gt())(rows_view(out@)[j as int], x@),
{
    let mut j: usize = 0;
    while j < out.len() && !key_after(&out[j].key_chars(), kx)
        invariant
            j <= out@.len(),
            (kx.0@, kx.1@) == spec_sort_key(x@),
            forall|i: int| 0 <= i < j ==> !(row_gt())(#[trigger] rows_view(out@)[i], x@),
        decreases out@.len() - j,
    {
        j = j + 1;
    }
    j
}

/// Stable sort of rows by [`TenantRow::sort_key`].
pub fn sort_rows(v: Vec<TenantRow>) -> (r: Vec<TenantRow>)
    ensures
        rows_view(r@) == isort(rows_view(v@), row_gt()),
{
    let ghost orig = v@;
    let mut src = v;
    let mut out: Vec<TenantRow> = Vec::new();
    let ghost mut k: int = 0;
    while src.len() > 0
        invariant
            0 <= k <= orig.len(),
            src@ == orig.skip(k),
            rows_view(out@) == isort(rows_view(orig).take(k), row_gt()),
        decreases src@.len(),
    {
        let x = src.remove(0);
        proof {
            assert(x == orig[k]);
        }
        let kx = x.key_chars();
        let j = row_insert_position(&out, &kx, Ghost(x@));
        proof {
            lemma_ins_at(rows_view(out@), x@, row_gt(), j as int);
            assert(rows_view(orig).take(k + 1).drop_last() =~= rows_view(orig).take(k));
            assert(rows_view(orig).take(k + 1).last() == x@);
        }
        let ghost before = out@;
        out.insert(j, x);
        proof {
            assert(rows_view(out@) =~= rows_view(before).take(j as int) + seq![x@] + rows_view(
                before,
            ).skip(j as int));
            assert(orig.skip(k).drop_first() =~= orig.skip(k + 1));
            k = k + 1;
        }
    }
    proof {
        assert(rows_view(orig).take(orig.len() as int) =~= rows_view(orig));
    }
    out
}

/// `Vec::dedup_by(|a, b| a.id == b.id)`.
pub fn dedup_rows(v: Vec<TenantRow>) -> (r: Vec<TenantRow>)
    ensures
        rows_view(r@) == dedup(rows_view(v@), same_id()),
{
    let ghost orig = v@;
    let mut src = v;
    let mut out: Vec<TenantRow> = Vec::new();
    let ghost mut k: int = 0;
    while src.len() > 0
        invariant
            0 <= k <= orig.len(),
            src@ == orig.skip(k),
            rows_view(out@) == dedup(rows_view(orig).take(k), same_id()),
        decreases src@.len(),
    {
        let x = src.remove(0);
        proof {
            assert(x == orig[k]);
            assert(rows_view(orig).take(k + 1).drop_last() =~= rows_view(orig).take(k));
            assert(rows_view(orig).take(k + 1).last() == x@);
            assert(orig.skip(k).drop_first() =~= orig.skip(k + 1));
        }
        let keep_it = if out.len() == 0 {
            true
        } else {
            !str_eq(x.id.as_str(), out[out.len() - 1].id.as_str())
        };
        if keep_it {
            let ghost before = out@;
            out.push(x);
            proof {
                assert(rows_view(out@) =~= rows_view(before).push(x@));
            }
        }
        proof {
            k = k + 1;
        }
    }
    proof {
        assert(rows_view(orig).take(orig.len() as int) =~= rows_view(orig));
    }
    out
}

/// The rows read from a listing come sorted by their sort key (trimmed, lower-cased
/// name, then id), and no two neighbouring rows share an id.
pub proof fn law_tenant_rows_sorted(body: Json)
    ensures
        sorted_by(spec_tenant_rows(body), row_gt()),
        forall|i: int|
            0 <= i < spec_tenant_rows(body).len() - 1 ==> (#[trigger] spec_tenant_rows(body)[i + 1]).id
                != spec_tenant_rows(body)[i].id,
{
    let parsed = parsed_rows(listing_items(body, "tenants"@));
    lemma_key_gt_strict_weak();
    assert(strict_weak(row_gt()));
    lemma_isort_sorted(parsed, row_gt());
    lemma_dedup_sorted(isort(parsed, row_gt()), row_gt(), same_id());
    lemma_dedup_sub(isort(parsed, row_gt()), same_id());
}

/// Distinct sort keys are ordered one way or the other.
pub proof fn lemma_key_gt_total(a: (Seq<char>, Seq<char>), b: (Seq<char>, Seq<char>))
    requires
        a.1 != b.1,
    ensures
        key_gt(a, b) || key_gt(b, a),
{
    lemma_seq_lt_total(a.0, b.0);
    lemma_seq_lt_total(a.1, b.1);
}

/// Every parsed row comes from an item of the listing.
pub proof fn lemma_parsed_rows_from_items(items: Seq<Json>)
    ensures
        forall|i: int| #![trigger parsed_rows(items)[i]] 0 <= i < parsed_rows(items).len() ==> exists|k: int| 0 <= k < items.len()
            && spec_item_row(#[trigger] items[k]) == Some(parsed_rows(items)[i]),
    decreases items.len(),
{
    if items.len() > 0 {
        let p = items.drop_last();
        lemma_parsed_rows_from_items(p);
        assert forall|i: int| #![trigger parsed_rows(items)[i]] 0 <= i < parsed_rows(items).len() implies exists|k: int| 0 <= k < items.len()
            && spec_item_row(#[trigger] items[k]) == Some(parsed_rows(items)[i]) by {
            if i < parsed_rows(p).len() {
                let k = choose|k: int| 0 <= k < p.len() && spec_item_row(#[trigger] p[k]) == Some(parsed_rows(p)[i]);
                assert(items[k] == p[k]);
            } else {
                assert(spec_item_row(items[items.len() - 1]) == Some(parsed_rows(items)[i]));
            }
        }
    }
}

/// The rows read from a listing are strictly increasing by sort key (so no two share a
/// key), each is the row of an item of the listing (`tenants` array, else the root
/// array), with the item's `id` trimmed and not empty; without such an array there are
/// no rows.
pub proof fn law_tenant_rows_strict_from_items(body: Json)
    ensures
        forall|i: int, j: int| 0 <= i < j < spec_tenant_rows(body).len() ==> key_gt(
            spec_sort_key(#[trigger] spec_tenant_rows(body)[j]),
            spec_sort_key(#[trigger] spec_tenant_rows(body)[i]),
        ),
        forall|i: int| #![trigger spec_tenant_rows(body)[i]] 0 <= i < spec_tenant_rows(body).len() ==> exists|k: int| 0 <= k < listing_items(body, "tenants"@).len()
            && spec_item_row(#[trigger] listing_items(body, "tenants"@)[k]) == Some(spec_tenant_rows(body)[i]),
        forall|i: int| 0 <= i < spec_tenant_rows(body).len() ==> (#[trigger] spec_tenant_rows(body)[i]).id.len() > 0,
        listing_items(body, "tenants"@).len() == 0 ==> spec_tenant_rows(body).len() == 0,
{
    let items = listing_items(body, "tenants"@);
    let parsed = parsed_rows(items);
    let rows = spec_tenant_rows(body);
    law_tenant_rows_sorted(body);
    lemma_key_gt_strict_weak();
    assert(strict_weak(row_gt()));
    assert forall|k: int| 0 <= k < rows.len() - 1 implies #[trigger] (row_gt())(rows[k + 1], rows[k]) by {
        assert(!(row_gt())(rows[k], rows[k + 1]));
        assert(rows[k + 1].id != rows[k].id);
        lemma_key_gt_total(spec_sort_key(rows[k + 1]), spec_sort_key(rows[k]));
    }
    lemma_sorted_strict(rows, row_gt());
    lemma_parsed_rows_from_items(items);
    lemma_dedup_sub(isort(parsed, row_gt()), same_id());
    assert forall|i: int| #![trigger rows[i]] 0 <= i < rows.len() implies exists|k: int| 0 <= k < items.len()
        && spec_item_row(#[trigger] items[k]) == Some(rows[i]) by {
        assert(isort(parsed, row_gt()).contains(rows[i]));
        lemma_isort_contains(parsed, row_gt(), rows[i]);
        let w = choose|w: int| 0 <= w < parsed.len() && parsed[w] == rows[i];
        let k = choose|k: int| 0 <= k < items.len() && spec_item_row(#[trigger] items[k]) == Some(parsed[w]);
    }
    assert forall|i: int| 0 <= i < rows.len() implies (#[trigger] rows[i]).id.len() > 0 by {
        let k = choose|k: int| 0 <= k < items.len() && spec_item_row(#[trigger] items[k]) == Some(rows[i]);
    }
    if items.len() == 0 {
        assert(parsed.len() == 0);
        assert(isort(parsed, row_gt()).len() == 0) by {
                        if isort(parsed, row_gt()).len() > 0 {
                lemma_isort_contains(parsed, row_gt(), isort(parsed, row_gt())[0]);
            }
        }
        assert(rows.len() == 0) by {
            if rows.len() > 0 {
                assert(isort(parsed, row_gt()).contains(rows[0]));
            }
        }
    }
}

/// The trimmed name of a row, empty without one.
pub open spec fn trimmed_name(r: TenantRowView) -> Seq<char> {
    match r.name {
        Some(n) => trim_seq(n),
        None => Seq::empty(),
    }
}

/// The rows read from a listing are in case-insensitive name order: along the list the
/// ASCII-lower-cased trimmed names strictly increase, or stay equal while the ids
/// strictly increase.
pub proof fn law_tenant_rows_in_case_insensitive_name_order(body: Json)
    ensures
        forall|i: int, j: int| 0 <= i < j < spec_tenant_rows(body).len() ==> ({
            let a = #[trigger] spec_tenant_rows(body)[i];
            let b = #[trigger] spec_tenant_rows(body)[j];
            seq_lt(lower_seq(trimmed_name(a)), lower_seq(trimmed_name(b))) || (lower_seq(trimmed_name(a))
                == lower_seq(trimmed_name(b)) && seq_lt(a.id, b.id))
        }),
{
    law_tenant_rows_strict_from_items(body);
    let rows = spec_tenant_rows(body);
    assert forall|i: int, j: int| 0 <= i < j < rows.len() implies ({
        let a = #[trigger] rows[i];
        let b = #[trigger] rows[j];
        seq_lt(lower_seq(trimmed_name(a)), lower_seq(trimmed_name(b))) || (lower_seq(trimmed_name(a))
            == lower_seq(trimmed_name(b)) && seq_lt(a.id, b.id))
    }) by {
        assert(key_gt(spec_sort_key(rows[j]), spec_sort_key(rows[i])));
    }
}

/// Tenant rows of a `GET /v1/tenants` payload (`tenants` array or a root array): items
/// with a non-blank string id, sorted by [`TenantRow::sort_key`], consecutive duplicates
/// by id dropped.
pub fn tenant_rows_from_body(body: &Json) -> (r: Vec<TenantRow>)
    ensures
        rows_view(r@) == spec_tenant_rows(*body),
{
    let mut out: Vec<TenantRow> = Vec::new();
    let ghost items = listing_items(*body, "tenants"@);
    match listing_array(body, "tenants") {
        Some(a) => {
            let mut i: usize = 0;
            while i < a.len()
                invariant
                    i <= a@.len(),
                    a@ == items,
                    rows_view(out@) == parsed_rows(items.take(i as int)),
                decreases a@.len() - i,
            {
                proof {
                    assert(items.take(i + 1).drop_last() =~= items.take(i as int));
                    assert(items.take(i + 1).last() == items[i as int]);
                }
                match item_row(&a[i]) {
                    Some(row) => {
                        let ghost before = out@;
                        out.push(row);
                        proof {
                            assert(rows_view(out@) =~= rows_view(before).push(row@));
                        }
                    },
                    None => {},
                }
                i = i + 1;
            }
            proof {
                assert(items.take(items.len() as int) =~= items);
            }
        },
        None => {
            proof {
                assert(rows_view(out@) =~= parsed_rows(items));
            }
        },
    }
    let sorted = sort_rows(out);
    dedup_rows(sorted)
}

// ---------------------------------------------------------------------------
// Organisation filter
// ---------------------------------------------------------------------------

/// How the organisation filter treats payloads without organisation linkage.
#[derive(Clone, Copy, Debug, PartialEq, Eq, Structural)]
pub enum TenantOrgFilterMode {
    /// Without linkage in the payload, keep every tenant (older gateways, unknown shapes).
    PermissiveLegacy,
    /// `/browse` after picking an organisation: never present the whole merged list as if
    /// it belonged to that organisation.
    BrowseOrganizationScoped,
}

/// `t` names `org` among its organisation ids or as its scalar organisation id.
pub open spec fn lists_org(t: TenantRowView, org: Seq<char>) -> bool {
    let listed = match t.organization_ids {
        Some(v) => v.contains(org),
        None => false,
    };
    listed || t.organization_id == Some(org)
}

/// `t` carries a non-empty organisation link.
pub open spec fn has_org_link(t: TenantRowView) -> bool {
    let scalar = match t.organization_id {
        Some(s) => s.len() > 0,
        None => false,
    };
    let listed = match t.organization_ids {
        Some(v) => some_nonempty(v),
        None => false,
    };
    scalar || listed
}

/// Some text of `v` is not empty.
pub open spec fn some_nonempty(v: Seq<Seq<char>>) -> bool {
    exists|i: int| 0 <= i < v.len() && #[trigger] v[i].len() > 0
}

/// Some row carries a non-empty organisation link.
pub open spec fn any_org_link(all: Seq<TenantRowView>) -> bool {
    exists|i: int| 0 <= i < all.len() && has_org_link(all[i])
}

/// Advisory when no row carries organisation linkage (browse mode).
pub open spec fn no_linkage_advisory() -> Seq<char> {
    "Cannot list tenants for this organization: `GET …/tenants` has no non-empty `organizationIds` (or scalar org id) on any row. The org + tenant merge likely failed for `userOrganizations` upstream while `tenantsWithAccess` still returned rows. Try again, or check the API / Management GraphQL."@
}

/// Advisory when linkage exists but no row belongs to `org`.
pub open spec fn no_match_advisory(org: Seq<char>) -> Seq<char> {
    "REST tenants response includes organization membership, but none of these tenants belong to `"@
        + org + "`. Press Esc and try another organization."@
}

/// The rows that belong to `org`.
pub open spec fn rows_of_org(all: Seq<TenantRowView>, org: Seq<char>) -> Seq<TenantRowView> {
    keep(all, |t: TenantRowView| lists_org(t, org))
}

/// The organisation filter: narrowed rows and an optional advisory.
pub open spec fn spec_filter(all: Seq<TenantRowView>, org: Seq<char>, mode: TenantOrgFilterMode) -> (
    Seq<TenantRowView>,
    Option<Seq<char>>,
) {
    if org.len() == 0 || all.len() == 0 {
        (all, None)
    } else if !any_org_link(all) {
        match mode {
            TenantOrgFilterMode::PermissiveLegacy => (all, None),
            TenantOrgFilterMode::BrowseOrganizationScoped => (
                Seq::empty(),
                Some(no_linkage_advisory()),
            ),
        }
    } else {
        let m = rows_of_org(all, org);
        if m.len() == 0 {
            (m, Some(no_match_advisory(org)))
        } else {
            (m, None)
        }
    }
}

fn lists_organization(t: &TenantRow, org: &str) -> (b: bool)
    ensures
        b == lists_org(t@, org@),
{
    match &t.organization_ids {
        Some(v) => {
            let mut i: usize = 0;
            while i < v.len()
                invariant
                    i <= v@.len(),
                    t.organization_ids == Some(*v),
                    forall|m: int| 0 <= m < i ==> strs_view(v@)[m] != org@,
                decreases v@.len() - i,
            {
                if str_eq(v[i].as_str(), org) {
                    proof {
                        assert(strs_view(v@)[i as int] == org@);
                        assert(strs_view(v@).contains(org@));
                    }
                    return true;
                }
                i = i + 1;
            }
        },
        None => {},
    }
    match &t.organization_id {
        Some(o) => str_eq(o.as_str(), org),
        None => false,
    }
}

fn row_has_org_link(t: &TenantRow) -> (b: bool)
    ensures
        b == has_org_link(t@),
{
    match &t.organization_id {
        Some(s) => {
            if !s.as_str().is_empty() {
                return true;
            }
        },
        None => {},
    }
    match &t.organization_ids {
        Some(v) => {
            let mut i: usize = 0;
            while i < v.len()
                invariant
                    i <= v@.len(),
                    t.organization_ids == Some(*v),
                    forall|m: int| 0 <= m < i ==> strs_view(v@)[m].len() == 0,
                decreases v@.len() - i,
            {
                if !v[i].as_str().is_empty() {
                    proof {
                        let sv = strs_view(v@);
                        assert(sv[i as int].len() > 0);
                        assert(exists|m: int| 0 <= m < sv.len() && sv[m].len() > 0);
                        assert(some_nonempty(sv));

                    }
                    return true;
                }
                i = i + 1;
            }
            false
        },
        None => false,
    }
}

fn aggregation_includes_organization_membership_hints(all: &[TenantRow]) -> (b: bool)
    ensures
        b == any_org_link(rows_view(all@)),
{
    let mut i: usize = 0;
    while i < all.len()
        invariant
            i <= all@.len(),
            forall|m: int| 0 <= m < i ==> !has_org_link(#[trigger] rows_view(all@)[m]),
        decreases all@.len() - i,
    {
        if row_has_org_link(&all[i]) {
            proof {
                assert(has_org_link(rows_view(all@)[i as int]));
            }
            return true;
        }
        i = i + 1;
    }
    false
}

/// The advisory shown when no row carries organisation linkage.
fn no_linkage_message() -> (r: String)
    ensures
        r@ == no_linkage_advisory(),
{
    let s: &str = "Cannot list tenants for this organization: `GET …/tenants` has no non-empty `organizationIds` (or scalar org id) on any row. The org + tenant merge likely failed for `userOrganizations` upstream while `tenantsWithAccess` still returned rows. Try again, or check the API / Management GraphQL.";
    s.to_owned()
}

/// The advisory shown when no row belongs to `org`.
fn no_match_message(org: &str) -> (r: String)
    ensures
        r@ == no_match_advisory(org@),
{
    let mut v: Vec<char> = Vec::new();
    push_str(&mut v, "REST tenants response includes organization membership, but none of these tenants belong to `");
    push_str(&mut v, org);
    push_str(&mut v, "`. Press Esc and try another organization.");
    string_of(&v)
}

fn filter_tenants_for_organization_inner(all: &[TenantRow], org_id: &str, mode: TenantOrgFilterMode) -> (r: (Vec<TenantRow>, Option<String>))
    ensures
        (rows_view(r.0@), opt_view(r.1)) == spec_filter(rows_view(all@), org_id@, mode),
{
    if org_id.is_empty() || all.len() == 0 {
        return (copy_rows(all), None);
    }
    if !aggregation_includes_organization_membership_hints(all) {
        return match mode {
            TenantOrgFilterMode::PermissiveLegacy => (copy_rows(all), None),
            TenantOrgFilterMode::BrowseOrganizationScoped => {
                let empty: Vec<TenantRow> = Vec::new();
                proof {
                    assert(rows_view(empty@) =~= Seq::<TenantRowView>::empty());
                }
                (empty, Some(no_linkage_message()))
            },
        };
    }
    let ghost p = |t: TenantRowView| lists_org(t, org_id@);
    let mut matched: Vec<TenantRow> = Vec::new();
    let mut i: usize = 0;
    while i < all.len()
        invariant
            i <= all@.len(),
            p == (|t: TenantRowView| lists_org(t, org_id@)),
            rows_view(matched@) == keep(rows_view(all@).take(i as int), p),
        decreases all@.len() - i,
    {
        proof {
            assert(rows_view(all@).take(i + 1).drop_last() =~= rows_view(all@).take(i as int));
            assert(rows_view(all@).take(i + 1).last() == all@[i as int]@);
        }
        if lists_organization(&all[i], org_id) {
            let c = all[i].copy_row();
            let ghost before = matched@;
            matched.push(c);
            proof {
                assert(rows_view(matched@) =~= rows_view(before).push(c@));
            }
        }
        i = i + 1;
    }
    proof {
        assert(rows_view(all@).take(all@.len() as int) =~= rows_view(all@));
    }
    if matched.len() == 0 {
        return (matched, Some(no_match_message(org_id)));
    }
    (matched, None)
}

/// Narrows `GET /v1/tenants` rows to an organisation when the payload carries organisation
/// linkage; legacy payloads without linkage keep every row.
pub fn filter_tenants_for_organization(all: &[TenantRow], org_id: &str) -> (r: (
    Vec<TenantRow>,
    Option<String>,
))
    ensures
        (rows_view(r.0@), opt_view(r.1)) == spec_filter(
            rows_view(all@),
            org_id@,
            TenantOrgFilterMode::PermissiveLegacy,
        ),
{
    filter_tenants_for_organization_inner(all, org_id, TenantOrgFilterMode::PermissiveLegacy)
}

/// Like [`filter_tenants_for_organization`], for `/browse` after an organisation is
/// picked: without linkage in the payload no row is shown, with an advisory.
pub fn filter_tenants_for_organization_for_browse(all: &[TenantRow], org_id: &str) -> (r: (
    Vec<TenantRow>,
    Option<String>,
))
    ensures
        (rows_view(r.0@), opt_view(r.1)) == spec_filter(
            rows_view(all@),
            org_id@,
            TenantOrgFilterMode::BrowseOrganizationScoped,
        ),
{
    filter_tenants_for_organization_inner(
        all,
        org_id,
        TenantOrgFilterMode::BrowseOrganizationScoped,
    )
}

/// The trimmed organisation scope, when it is not blank.
pub open spec fn spec_scope(scope: Option<Seq<char>>) -> Option<Seq<char>> {
    match scope {
        Some(s) => if trim_seq(s).len() > 0 {
            Some(trim_seq(s))
        } else {
            None
        },
        None => None,
    }
}

/// The text of an optional string slice.
pub open spec fn opt_str_view(o: Option<&str>) -> Option<Seq<char>> {
    match o {
        Some(s) => Some(s@),
        None => None,
    }
}

/// The organisation a listing is scoped to: the saved organisation id trimmed, `None`
/// when absent or blank.
pub fn tenants_organization_scope(current_organization_id: Option<&str>) -> (r: Option<String>)
    ensures
        opt_view(r) == spec_scope(opt_str_view(current_organization_id)),
{
    match current_organization_id {
        Some(id) => {
            let cs = chars_of(id);
            let t = crate::text::trim_chars(&cs);
            if t.len() > 0 {
                Some(string_of(&t))
            } else {
                None
            }
        },
        None => None,
    }
}

/// Rows of a `GET /v1/tenants` payload for `/tenants` and `/tenant`: with a non-blank
/// scope, narrowed as in browse mode; otherwise every row.
pub fn tenant_listing_rows_from_body(body: &Json, organization_scope: Option<&str>) -> (r: (
    Vec<TenantRow>,
    Option<String>,
))
    ensures
        (rows_view(r.0@), opt_view(r.1)) == match spec_scope(opt_str_view(organization_scope)) {
            None => (spec_tenant_rows(*body), None),
            Some(o) => spec_filter(
                spec_tenant_rows(*body),
                o,
                TenantOrgFilterMode::BrowseOrganizationScoped,
            ),
        },
{
    let all = tenant_rows_from_body(body);
    match organization_scope {
        Some(s) => {
            let t = trim_str(s);
            if t.as_str().is_empty() {
                (all, None)
            } else {
                filter_tenants_for_organization_for_browse(&all, t.as_str())
            }
        },
        None => (all, None),
    }
}

/// The ids of the items that have a non-empty string id (untrimmed).
pub open spec fn raw_ids(items: Seq<Json>) -> Seq<Seq<char>>
    decreases items.len(),
{
    if items.len() == 0 {
        Seq::empty()
    } else {
        let rest = raw_ids(items.drop_last());
        match items.last().str_member("id"@) {
            Some(s) => if s.len() > 0 {
                rest.push(s)
            } else {
                rest
            },
            None => rest,
        }
    }
}

/// The tenant ids read from a listing come in ascending order, each id once.
pub proof fn law_tenant_ids_sorted_unique(body: Json)
    ensures
        strictly_ascending(
            dedup(isort(raw_ids(listing_items(body, "tenants"@)), str_gt()), str_same()),
        ),
{
    let raw = raw_ids(listing_items(body, "tenants"@));
    lemma_isort_ascending(raw);
    lemma_dedup_strictly_ascending(isort(raw, str_gt()));
}

/// Tenant ids of a `GET /v1/tenants` payload, sorted, without duplicates.
pub fn tenant_ids_from_body(body: &Json) -> (r: Vec<String>)
    ensures
        strs_view(r@) == dedup(
            isort(raw_ids(listing_items(*body, "tenants"@)), str_gt()),
            str_same(),
        ),
{
    let mut ids: Vec<String> = Vec::new();
    let ghost items = listing_items(*body, "tenants"@);
    match listing_array(body, "tenants") {
        Some(a) => {
            let mut i: usize = 0;
            while i < a.len()
                invariant
                    i <= a@.len(),
                    a@ == items,
                    strs_view(ids@) == raw_ids(items.take(i as int)),
                decreases a@.len() - i,
            {
                proof {
                    assert(items.take(i + 1).drop_last() =~= items.take(i as int));
                    assert(items.take(i + 1).last() == items[i as int]);
                }
                match a[i].get_str("id") {
                    Some(s) => {
                        if !s.as_str().is_empty() {
                            let ghost before = ids@;
                            ids.push(s.clone());
                            proof {
                                assert(strs_view(ids@) =~= strs_view(before).push(s@));
                            }
                        }
                    },
                    None => {},
                }
                i = i + 1;
            }
            proof {
                assert(items.take(items.len() as int) =~= items);
            }
        },
        None => {
            proof {
                assert(strs_view(ids@) =~= raw_ids(items));
            }
        },
    }
    sort_dedup_strings(&ids)
}

// ---------------------------------------------------------------------------
// Endpoint and report
// ---------------------------------------------------------------------------

/// Full `GET …/v1/tenants` URL for display, with an `organization_id` query when a
/// non-blank scope is given (appended by `url`, or literally when `url` refuses the base).
pub open spec fn spec_tenants_list_url(origin: Seq<char>, scope: Option<Seq<char>>) -> Seq<char> {
    let path = trim_end_char_seq(origin, '/') + "/v1/tenants"@;
    match spec_scope(scope) {
        None => path,
        Some(oid) => match spec_url_with_pairs(path, seq![("organization_id"@, oid)]) {
            Some(u) => u,
            None => path + "?organization_id="@ + oid,
        },
    }
}

/// Full `GET …/v1/tenants` URL for display (optional `organization_id` query when scoped).
pub fn tenants_list_url_for_display(api_origin: &str, organization_scope: Option<&str>) -> (r: String)
    ensures
        r@ == spec_tenants_list_url(api_origin@, opt_str_view(organization_scope)),
{
    let o = chars_of(api_origin);
    let mut pv = trim_end_char(&o, '/');
    push_str(&mut pv, TENANTS_PATH);
    let path = string_of(&pv);
    let oid = match organization_scope {
        Some(s) => {
            let t = trim_str(s);
            if t.as_str().is_empty() {
                return path;
            }
            t
        },
        None => return path,
    };
    let mut pairs: Vec<(String, String)> = Vec::new();
    pairs.push(("organization_id".to_owned(), oid.clone()));
    proof {
        assert(pairs_view(pairs@) =~= seq![("organization_id"@, oid@)]);
    }
    match url_with_pairs(path.as_str(), &pairs) {
        Some(u) => u,
        None => {
            let mut v = chars_of(path.as_str());
            push_str(&mut v, "?organization_id=");
            push_str(&mut v, oid.as_str());
            proof {
                assert(v@ =~= path@ + "?organization_id="@ + oid@);
            }
            string_of(&v)
        },
    }
}

/// Error preview of a failed `GET /v1/tenants`.
pub fn tenants_error_body_preview(status: u16, body: &str) -> (r: String)
    requires
        100 <= status <= 999,
    ensures
        r@ == spec_error_preview(status, body@),
{
    error_body_preview(status, body)
}

/// Text for `/tenants`: the banner with the (scoped) listing URL, pretty JSON or the
/// error, and the credentials note.
pub fn compose_tenants_report(
    api_origin: &str,
    organization_scope: Option<&str>,
    fetched: &Result<Json, String>,
    credentials_file_note: Option<String>,
) -> (r: String)
    ensures
        r@ == spec_report(
            "Tenants"@,
            spec_tenants_list_url(
                trim_end_char_seq(api_origin@, '/'),
                opt_str_view(organization_scope),
            ),
            outcome_view(*fetched),
            opt_view(credentials_file_note),
        ),
{
    let o = chars_of(api_origin);
    let base = string_of(&trim_end_char(&o, '/'));
    let note = tenants_list_url_for_display(base.as_str(), organization_scope);
    compose_report("Tenants", note.as_str(), fetched, credentials_file_note)
}

// ---------------------------------------------------------------------------
// Laws of the organisation filter
// ---------------------------------------------------------------------------

proof fn lemma_listed_has_link(t: TenantRowView, org: Seq<char>)
    requires
        org.len() > 0,
        lists_org(t, org),
    ensures
        has_org_link(t),
{
    match t.organization_ids {
        Some(v) => {
            if v.contains(org) {
                let i = choose|i: int| 0 <= i < v.len() && v[i] == org;
                assert(v[i].len() > 0);
            }
        },
        None => {},
    }
}

/// Every row that the filter keeps comes from its input.
pub proof fn law_filter_keeps_input_rows(
    all: Seq<TenantRowView>,
    org: Seq<char>,
    mode: TenantOrgFilterMode,
)
    ensures
        forall|i: int|
            0 <= i < spec_filter(all, org, mode).0.len() ==> all.contains(
                #[trigger] spec_filter(all, org, mode).0[i],
            ),
        spec_filter(all, org, mode).0.len() <= all.len(),
{
    lemma_keep_sub(all, |t: TenantRowView| lists_org(t, org));
}

/// In browse mode, every row returned for a non-empty organisation id names that
/// organisation (among its organisation ids or as its scalar organisation id).
pub proof fn law_browse_rows_belong_to_org(all: Seq<TenantRowView>, org: Seq<char>)
    requires
        org.len() > 0,
    ensures
        forall|i: int|
            0 <= i < spec_filter(all, org, TenantOrgFilterMode::BrowseOrganizationScoped).0.len()
                ==> lists_org(
                #[trigger] spec_filter(all, org, TenantOrgFilterMode::BrowseOrganizationScoped).0[i],
                org,
            ),
{
    lemma_keep_sub(all, |t: TenantRowView| lists_org(t, org));
}

/// Without organisation linkage in the payload, the legacy filter returns every row.
pub proof fn law_legacy_without_linkage_keeps_all(all: Seq<TenantRowView>, org: Seq<char>)
    requires
        !any_org_link(all),
    ensures
        spec_filter(all, org, TenantOrgFilterMode::PermissiveLegacy) == (all, None::<Seq<char>>),
{
}

/// For a non-empty input and organisation id, the filter explains itself exactly when it
/// returns no row.
pub proof fn law_advisory_iff_empty(all: Seq<TenantRowView>, org: Seq<char>, mode: TenantOrgFilterMode)
    requires
        org.len() > 0,
        all.len() > 0,
    ensures
        spec_filter(all, org, mode).1 is Some <==> spec_filter(all, org, mode).0.len() == 0,
{
}

/// The organisation filter (`filter_tenants_for_organization` and
/// `filter_tenants_for_organization_for_browse`, whose results are [`spec_filter`]) on a
/// payload where some row carries a non-empty organisation link, for a non-empty
/// organisation id: in either mode it keeps exactly the rows that name the organisation
/// (among their ids or as their scalar id), in input order; it gives an advisory exactly
/// when no row is left, and the advisory names the organisation.
pub proof fn law_linked_payload_keeps_org_rows(all: Seq<TenantRowView>, org: Seq<char>, mode: TenantOrgFilterMode)
    requires
        org.len() > 0,
        any_org_link(all),
    ensures
        spec_filter(all, org, mode).0 == keep(all, |t: TenantRowView| lists_org(t, org)),
        spec_filter(all, org, mode).1 is Some <==> spec_filter(all, org, mode).0.len() == 0,
        spec_filter(all, org, mode).1 matches Some(m) ==> crate::text::contains_seq(m, org),
{
    let m = no_match_advisory(org);
    let pre = "REST tenants response includes organization membership, but none of these tenants belong to `"@;
    assert(m.subrange(pre.len() as int, (pre.len() + org.len()) as int) =~= org);
    assert(crate::text::occurs_at(m, org, pre.len() as int));
}

/// Filtering the rows that the filter returned, for the same organisation and mode,
/// returns them unchanged.
pub proof fn law_filter_idempotent(all: Seq<TenantRowView>, org: Seq<char>, mode: TenantOrgFilterMode)
    ensures
        spec_filter(spec_filter(all, org, mode).0, org, mode).0 == spec_filter(all, org, mode).0,
{
    let p = |t: TenantRowView| lists_org(t, org);
    let r = spec_filter(all, org, mode).0;
    if org.len() > 0 && all.len() > 0 && any_org_link(all) {
        let m = keep(all, p);
        if m.len() > 0 {
            lemma_keep_sub(all, p);
            assert(p(m[0]));
            lemma_listed_has_link(m[0], org);
            assert(any_org_link(m));
            lemma_keep_all(m, p);
        }
    }
}

} // verus!
