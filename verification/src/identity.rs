//! The tabular view of an identity record (`GET /v1/userinfo`): one titled section per
//! top-level member, nested objects as indented sub-sections, arrays of objects as
//! numbered tables.

use vstd::prelude::*;

use crate::api::{banner, endpoint_url, outcome_view, byte_len, byte_len_of, lemma_byte_len_bound, prefix_within, prefix_within_exec};
use crate::json::{
    entries_has, entries_height, entries_lookup, json_compact, lemma_entries_get_at,
    json_pretty, lemma_entries_get_height, spec_json_compact, spec_json_pretty, Json,
};
use crate::seqs::{dedup, isort, keep, lemma_isort_contains, lemma_keep_contains, lemma_keep_sub};
use crate::text::{
    chars_of, decimal, join_chars, join_seq, pad_right, push_chars, push_decimal, push_padded,
    push_str, sort_dedup_strings, sort_strings, spaces, str_eq, str_gt, str_same, string_of,
    strs_view, vecs_view,
};
use crate::whoami::{
    clamp_nat, keys_of, lemma_key_is_member, member_or_null, object_keys, spec_truncated, summarize_value_truncated,
};

verus! {

// ---------------------------------------------------------------------------
// Cells
// ---------------------------------------------------------------------------

/// What `char::to_uppercase` yields for `c`.
pub uninterp spec fn spec_char_upper(c: char) -> Seq<char>;

/// Calls `char::to_uppercase` and collects it; the text is named [`spec_char_upper`]. As
/// the standard library documents, an ASCII lowercase letter becomes its capital and any
/// other ASCII character stays as it is.
#[verifier::external_body]
fn char_upper(c: char) -> (r: String)
    ensures
        r@ == spec_char_upper(c),
        'a' <= c <= 'z' ==> r@ == seq![((c as u32) - 32) as char],
        (c as u32) < 128 && !('a' <= c <= 'z') ==> r@ == seq![c],
{
    c.to_uppercase().collect()
}

/// A section title: the name with its first character upper-cased.
pub open spec fn section_title(name: Seq<char>) -> Seq<char> {
    if name.len() == 0 {
        name
    } else {
        spec_char_upper(name[0]) + name.drop_first()
    }
}

fn section_title_exec(name: &[char]) -> (r: Vec<char>)
    ensures
        r@ == section_title(name@),
{
    if name.len() == 0 {
        return Vec::new();
    }
    let head = char_upper(name[0]);
    let mut out = chars_of(head.as_str());
    let rest = crate::text::slice_chars(name, 1, name.len());
    push_chars(&mut out, &rest);
    proof {
        assert(name@.subrange(1, name@.len() as int) =~= name@.drop_first());
    }
    out
}

/// A cell cut to `max` bytes: kept when it fits, else its longest prefix of at most
/// `max - 1` bytes followed by `…`.
pub open spec fn truncated_cell(s: Seq<char>, max: nat) -> Seq<char> {
    if byte_len(s) <= max {
        s
    } else {
        prefix_within(s, if max >= 1 { (max - 1) as nat } else { 0 }) + "…"@
    }
}

fn truncated_cell_exec(s: &[char], max: usize) -> (r: Vec<char>)
    ensures
        r@ == truncated_cell(s@, max as nat),
{
    let n = byte_len_of(s);
    if n <= max as u128 {
        return crate::text::slice_chars(s, 0, s.len());
    }
    let cut: usize = if max >= 1 { max - 1 } else { 0 };
    let mut out = prefix_within_exec(s, cut);
    push_str(&mut out, "…");
    out
}

/// How a leaf value is shown in the view: `—` for `null`, compact JSON cut to 200 bytes
/// for arrays and objects.
pub open spec fn leaf_display(v: Json) -> Seq<char> {
    match v {
        Json::Str(s) => s@,
        Json::Bool(b) => if b { "true"@ } else { "false"@ },
        Json::Number(n) => n.spec_text(),
        Json::Null => "—"@,
        _ => spec_truncated(v, 200),
    }
}

/// A string, boolean or number leaf is shown as its own text, as the JWT claims preview
/// summarises it: a string as itself, a number as its JSON text, and a boolean as the
/// JSON literal of its value (`true` exactly for true), which the JSON highlighter takes
/// as one keyword.
pub proof fn law_leaf_shows_scalar_text(v: Json, b: bool)
    ensures
        (v is Str || v is Bool || v is Number) ==> leaf_display(v) == crate::whoami::spec_summary(v),
        v matches Json::Str(s) ==> leaf_display(v) == s@,
        v matches Json::Number(n) ==> leaf_display(v) == n.spec_text(),
        (leaf_display(Json::Bool(b)) == "true"@) == b,
        (leaf_display(Json::Bool(b)) == "false"@) == !b,
        crate::tui_output::kw_at(leaf_display(Json::Bool(b)), 0) == Some(leaf_display(Json::Bool(b))),
        leaf_display(Json::Null) == "—"@,
        (v is Array || v is Object) ==> leaf_display(v) == spec_truncated(v, 200),
{
    reveal_strlit("true");
    reveal_strlit("false");
    reveal_strlit("null");
    let t = leaf_display(Json::Bool(b));
    assert("true"@ != "false"@) by {
        assert("true"@.len() != "false"@.len());
    }
    assert(t.subrange(0, t.len() as int) =~= t);
    if b {
        assert(crate::tui_output::kw_fits(t, 0, "true"@));
    } else {
        assert(crate::tui_output::kw_fits(t, 0, "false"@));
        crate::tui_output::law_json_literals_are_keywords(t, 0, "false"@);
    }
}

fn leaf_display_exec(v: &Json) -> (r: Vec<char>)
    ensures
        r@ == leaf_display(*v),
{
    match v {
        Json::Str(s) => chars_of(s.as_str()),
        Json::Bool(b) => if *b { chars_of("true") } else { chars_of("false") },
        Json::Number(n) => chars_of(n.text().as_str()),
        Json::Null => chars_of("—"),
        _ => summarize_value_truncated(v, 200),
    }
}

/// A cell cut to `w` bytes and padded to `w` characters.
pub open spec fn padded_cell(t: Seq<char>, w: nat) -> Seq<char> {
    pad_right(truncated_cell(t, w), w)
}

fn padded_cell_exec(t: &[char], w: usize) -> (r: Vec<char>)
    ensures
        r@ == padded_cell(t@, w as nat),
{
    let c = truncated_cell_exec(t, w);
    let mut out: Vec<char> = Vec::new();
    push_padded(&mut out, &c, w);
    out
}

// ---------------------------------------------------------------------------
// Tables
// ---------------------------------------------------------------------------

/// Columns shown first, in this order.
pub open spec fn front_cols() -> Seq<Seq<char>> {
    seq!["id"@, "type"@, "primary"@, "verified"@, "kind"@, "value"@, "address"@]
}

/// Columns shown last, in this order.
pub open spec fn back_cols() -> Seq<Seq<char>> {
    seq!["updatedAt"@, "createdAt"@]
}

fn front_col_names() -> (r: Vec<&'static str>)
    ensures
        r@.len() == front_cols().len(),
        forall|i: int| 0 <= i < r@.len() ==> (#[trigger] r@[i])@ == front_cols()[i],
{
    vec!["id", "type", "primary", "verified", "kind", "value", "address"]
}

fn back_col_names() -> (r: Vec<&'static str>)
    ensures
        r@.len() == back_cols().len(),
        forall|i: int| 0 <= i < r@.len() ==> (#[trigger] r@[i])@ == back_cols()[i],
{
    vec!["updatedAt", "createdAt"]
}

/// Membership in `keys`.
pub open spec fn in_keys(keys: Seq<Seq<char>>) -> spec_fn(Seq<char>) -> bool {
    |c: Seq<char>| keys.contains(c)
}

/// Neither a front nor a back column.
pub open spec fn middle_col() -> spec_fn(Seq<char>) -> bool {
    |k: Seq<char>| !front_cols().contains(k) && !back_cols().contains(k)
}

/// Column order for distinct keys: the front columns present (in front order), the other
/// keys sorted, then the back columns present (in back order).
pub open spec fn prioritized(keys: Seq<Seq<char>>) -> Seq<Seq<char>> {
    keep(front_cols(), in_keys(keys)) + isort(keep(keys, middle_col()), str_gt()) + keep(
        back_cols(),
        in_keys(keys),
    )
}

fn contains_string(keys: &Vec<String>, c: &str) -> (b: bool)
    ensures
        b == strs_view(keys@).contains(c@),
{
    let mut i: usize = 0;
    while i < keys.len()
        invariant
            i <= keys@.len(),
            forall|j: int| 0 <= j < i ==> strs_view(keys@)[j] != c@,
        decreases keys@.len() - i,
    {
        if str_eq(keys[i].as_str(), c) {
            proof {
                assert(strs_view(keys@)[i as int] == c@);
            }
            return true;
        }
        i = i + 1;
    }
    false
}

fn contains_str(names: &Vec<&'static str>, c: &str) -> (b: bool)
    ensures
        b == names@.map_values(|n: &'static str| n@).contains(c@),
{
    let ghost ns = names@.map_values(|n: &'static str| n@);
    let mut i: usize = 0;
    while i < names.len()
        invariant
            i <= names@.len(),
            ns == names@.map_values(|n: &'static str| n@),
            forall|j: int| 0 <= j < i ==> ns[j] != c@,
        decreases names@.len() - i,
    {
        if str_eq(names[i], c) {
            proof {
                assert(ns[i as int] == c@);
            }
            return true;
        }
        i = i + 1;
    }
    false
}

/// The names of `cols` present in `keys`, in the order of `cols`.
fn present_cols(cols: &Vec<&'static str>, keys: &Vec<String>) -> (r: Vec<String>)
    ensures
        strs_view(r@) == keep(cols@.map_values(|n: &'static str| n@), in_keys(strs_view(keys@))),
{
    let ghost cs = cols@.map_values(|n: &'static str| n@);
    let mut out: Vec<String> = Vec::new();
    let mut i: usize = 0;
    while i < cols.len()
        invariant
            i <= cols@.len(),
            cs == cols@.map_values(|n: &'static str| n@),
            strs_view(out@) == keep(cs.take(i as int), in_keys(strs_view(keys@))),
        decreases cols@.len() - i,
    {
        proof {
            assert(cs.take(i + 1).drop_last() =~= cs.take(i as int));
            assert(cs.take(i + 1).last() == cols@[i as int]@);
        }
        if contains_string(keys, cols[i]) {
            let c = cols[i].to_owned();
            let ghost before = out@;
            out.push(c);
            proof {
                assert(strs_view(out@) =~= strs_view(before).push(c@));
            }
        }
        i = i + 1;
    }
    proof {
        assert(cs.take(cols@.len() as int) =~= cs);
    }
    out
}

fn prioritized_exec(keys: &Vec<String>) -> (r: Vec<String>)
    ensures
        strs_view(r@) == prioritized(strs_view(keys@)),
{
    let front = front_col_names();
    let back = back_col_names();
    proof {
        assert(front@.map_values(|n: &'static str| n@) =~= front_cols());
        assert(back@.map_values(|n: &'static str| n@) =~= back_cols());
    }
    let mut mid: Vec<String> = Vec::new();
    let mut i: usize = 0;
    while i < keys.len()
        invariant
            i <= keys@.len(),
            front@.map_values(|n: &'static str| n@) == front_cols(),
            back@.map_values(|n: &'static str| n@) == back_cols(),
            strs_view(mid@) == keep(strs_view(keys@).take(i as int), middle_col()),
        decreases keys@.len() - i,
    {
        proof {
            assert(strs_view(keys@).take(i + 1).drop_last() =~= strs_view(keys@).take(i as int));
            assert(strs_view(keys@).take(i + 1).last() == keys@[i as int]@);
        }
        if !contains_str(&front, keys[i].as_str()) && !contains_str(&back, keys[i].as_str()) {
            let k = keys[i].clone();
            let ghost before = mid@;
            mid.push(k);
            proof {
                assert(strs_view(mid@) =~= strs_view(before).push(k@));
            }
        }
        i = i + 1;
    }
    proof {
        assert(strs_view(keys@).take(keys@.len() as int) =~= strs_view(keys@));
    }
    let mut out = present_cols(&front, keys);
    let sorted = sort_strings(&mid);
    let tail = present_cols(&back, keys);
    let ghost a = strs_view(out@);
    let mut j: usize = 0;
    while j < sorted.len()
        invariant
            j <= sorted@.len(),
            strs_view(out@) == a + strs_view(sorted@).take(j as int),
        decreases sorted@.len() - j,
    {
        let x = sorted[j].clone();
        let ghost before = out@;
        out.push(x);
        proof {
            assert(strs_view(out@) =~= strs_view(before).push(x@));
            assert(strs_view(sorted@).take(j + 1) =~= strs_view(sorted@).take(j as int).push(sorted@[j as int]@));
        }
        j = j + 1;
    }
    proof {
        assert(strs_view(sorted@).take(sorted@.len() as int) =~= strs_view(sorted@));
    }
    let ghost b = strs_view(out@);
    let mut j: usize = 0;
    while j < tail.len()
        invariant
            j <= tail@.len(),
            strs_view(out@) == b + strs_view(tail@).take(j as int),
        decreases tail@.len() - j,
    {
        let x = tail[j].clone();
        let ghost before = out@;
        out.push(x);
        proof {
            assert(strs_view(out@) =~= strs_view(before).push(x@));
            assert(strs_view(tail@).take(j + 1) =~= strs_view(tail@).take(j as int).push(tail@[j as int]@));
        }
        j = j + 1;
    }
    proof {
        assert(strs_view(tail@).take(tail@.len() as int) =~= strs_view(tail@));
    }
    out
}

/// Whether every item is an object.
pub open spec fn all_objects(a: Seq<Json>) -> bool {
    forall|i: int| 0 <= i < a.len() ==> (#[trigger] a[i]) is Object
}

/// The entries of an object (none for other values).
pub open spec fn object_entries(v: Json) -> Seq<(String, Json)> {
    match v {
        Json::Object(es) => es@,
        _ => Seq::empty(),
    }
}

/// The rows of an array of objects.
pub open spec fn object_rows(a: Seq<Json>) -> Seq<Seq<(String, Json)>> {
    a.map_values(|v: Json| object_entries(v))
}

/// Every row's keys, row after row.
pub open spec fn rows_keys(rows: Seq<Seq<(String, Json)>>) -> Seq<Seq<char>>
    decreases rows.len(),
{
    if rows.len() == 0 {
        Seq::empty()
    } else {
        rows_keys(rows.drop_last()) + keys_of(rows.last())
    }
}

/// The columns of a table: the distinct keys of all rows, prioritized.
pub open spec fn table_cols(rows: Seq<Seq<(String, Json)>>) -> Seq<Seq<char>> {
    prioritized(dedup(isort(rows_keys(rows), str_gt()), str_same()))
}

/// The text of a row's cell in column `c` (`—` when the row lacks it).
pub open spec fn cell_text(row: Seq<(String, Json)>, c: Seq<char>) -> Seq<char> {
    leaf_display(member_or_null(row, c))
}

/// The widest cell of column `c`, in bytes.
pub open spec fn body_width(rows: Seq<Seq<(String, Json)>>, c: Seq<char>) -> nat
    decreases rows.len(),
{
    if rows.len() == 0 {
        0
    } else {
        let a = body_width(rows.drop_last(), c);
        let b = byte_len(cell_text(rows.last(), c));
        if a < b { b } else { a }
    }
}

/// Width of column `c`: the wider of its name and its cells, held within 4..=44.
pub open spec fn col_width(rows: Seq<Seq<(String, Json)>>, c: Seq<char>) -> nat {
    let h = byte_len(c);
    let b = body_width(rows, c);
    clamp_nat(if h < b { b } else { h }, 4, 44)
}

/// The header cells.
pub open spec fn header_cells(rows: Seq<Seq<(String, Json)>>, cols: Seq<Seq<char>>) -> Seq<Seq<char>> {
    cols.map_values(|c: Seq<char>| padded_cell(c, col_width(rows, c)))
}

/// The cells of one row.
pub open spec fn row_cells(
    rows: Seq<Seq<(String, Json)>>,
    cols: Seq<Seq<char>>,
    row: Seq<(String, Json)>,
) -> Seq<Seq<char>> {
    cols.map_values(|c: Seq<char>| padded_cell(cell_text(row, c), col_width(rows, c)))
}

/// Width of the index column: the digits of the row count plus one.
pub open spec fn idx_width(n: nat) -> nat {
    decimal(n + 1).len()
}

/// `format!("{:>w$}", s)`: `s` padded with spaces on the left to `w` characters.
pub open spec fn pad_left(s: Seq<char>, w: nat) -> Seq<char> {
    if s.len() < w {
        spaces((w - s.len()) as nat) + s
    } else {
        s
    }
}

/// Total bytes of the texts.
pub open spec fn sum_bytes(cells: Seq<Seq<char>>) -> nat
    decreases cells.len(),
{
    if cells.len() == 0 {
        0
    } else {
        sum_bytes(cells.drop_last()) + byte_len(cells.last())
    }
}

/// Length of the rule under the header: the index column, the header cells and the gaps.
pub open spec fn rule_len(iw: nat, cells: Seq<Seq<char>>) -> nat {
    iw + 2 + sum_bytes(cells) + 2 * (if cells.len() > 0 { (cells.len() - 1) as nat } else { 0 })
}

/// `n` copies of `c`.
pub open spec fn repeat_char(c: char, n: nat) -> Seq<char> {
    Seq::new(n, |i: int| c)
}

/// The header line of a table.
pub open spec fn header_line(rows: Seq<Seq<(String, Json)>>) -> Seq<char> {
    "      "@ + pad_right("#"@, idx_width(rows.len())) + "  "@ + join_seq(
        header_cells(rows, table_cols(rows)),
        "  "@,
    )
}

/// The rule line of a table, at most 120 dashes.
pub open spec fn rule_line(rows: Seq<Seq<(String, Json)>>) -> Seq<char> {
    let n = rule_len(idx_width(rows.len()), header_cells(rows, table_cols(rows)));
    "      "@ + repeat_char('-', if n < 120 { n } else { 120 })
}

/// The line of row `i` (numbered from 1).
pub open spec fn row_line(rows: Seq<Seq<(String, Json)>>, i: int) -> Seq<char> {
    "      "@ + pad_left(decimal((i + 1) as nat), idx_width(rows.len())) + "  "@ + join_seq(
        row_cells(rows, table_cols(rows), rows[i]),
        "  "@,
    )
}

/// The lines of a table.
pub open spec fn table_lines(rows: Seq<Seq<(String, Json)>>) -> Seq<Seq<char>> {
    seq![header_line(rows), rule_line(rows)] + Seq::new(rows.len(), |i: int| row_line(rows, i))
}

/// A table of objects: a header, a rule, one numbered line per row (nothing for no rows).
pub open spec fn spec_table(rows: Seq<Seq<(String, Json)>>) -> Seq<char> {
    if rows.len() == 0 {
        Seq::empty()
    } else {
        join_seq(table_lines(rows), "\n"@)
    }
}

fn rows_keys_exec(a: &Vec<Json>) -> (r: Vec<String>)
    ensures
        strs_view(r@) == rows_keys(object_rows(a@)),
{
    let mut out: Vec<String> = Vec::new();
    let mut i: usize = 0;
    while i < a.len()
        invariant
            i <= a@.len(),
            strs_view(out@) == rows_keys(object_rows(a@).take(i as int)),
        decreases a@.len() - i,
    {
        let ks: Vec<String> = match &a[i] {
            Json::Object(es) => object_keys(es),
            _ => Vec::new(),
        };
        proof {
            let t = object_rows(a@).take(i + 1);
            assert(t.drop_last() =~= object_rows(a@).take(i as int));
            assert(t.last() == object_entries(a@[i as int]));
            if !(a@[i as int] is Object) {
                assert(keys_of(Seq::<(String, Json)>::empty()) =~= Seq::<Seq<char>>::empty());
            }
        }
        let ghost before = strs_view(out@);
        let mut j: usize = 0;
        while j < ks.len()
            invariant
                j <= ks@.len(),
                strs_view(out@) == before + strs_view(ks@).take(j as int),
            decreases ks@.len() - j,
        {
            let x = ks[j].clone();
            let ghost b2 = out@;
            out.push(x);
            proof {
                assert(strs_view(out@) =~= strs_view(b2).push(x@));
                assert(strs_view(ks@).take(j + 1) =~= strs_view(ks@).take(j as int).push(ks@[j as int]@));
            }
            j = j + 1;
        }
        proof {
            assert(strs_view(ks@).take(ks@.len() as int) =~= strs_view(ks@));
        }
        i = i + 1;
    }
    proof {
        assert(object_rows(a@).take(a@.len() as int) =~= object_rows(a@));
    }
    out
}

fn cell_text_exec(row: &Vec<(String, Json)>, c: &str) -> (r: Vec<char>)
    ensures
        r@ == cell_text(row@, c@),
{
    let null = Json::Null;
    let v = match entries_lookup(row, c) {
        Some(v) => v,
        None => &null,
    };
    leaf_display_exec(v)
}

fn col_width_exec(a: &Vec<Json>, c: &str) -> (r: usize)
    ensures
        r == col_width(object_rows(a@), c@),
{
    let mut m: u128 = 0;
    let mut i: usize = 0;
    let null_row: Vec<(String, Json)> = Vec::new();
    while i < a.len()
        invariant
            i <= a@.len(),
            null_row@ == Seq::<(String, Json)>::empty(),
            m == body_width(object_rows(a@).take(i as int), c@),
        decreases a@.len() - i,
    {
        let row: &Vec<(String, Json)> = match &a[i] {
            Json::Object(es) => es,
            _ => &null_row,
        };
        let t = cell_text_exec(row, c);
        let b = byte_len_of(&t);
        proof {
            let s = object_rows(a@).take(i + 1);
            assert(s.drop_last() =~= object_rows(a@).take(i as int));
            assert(s.last() == object_entries(a@[i as int]));
            assert(row@ == object_entries(a@[i as int]));
        }
        if m < b {
            m = b;
        }
        i = i + 1;
    }
    proof {
        assert(object_rows(a@).take(a@.len() as int) =~= object_rows(a@));
    }
    let cc = chars_of(c);
    let h = byte_len_of(&cc);
    let x = if h < m { m } else { h };
    if x < 4 {
        4
    } else if x > 44 {
        44
    } else {
        x as usize
    }
}

fn table_exec(a: &Vec<Json>) -> (r: Vec<char>)
    ensures
        r@ == spec_table(object_rows(a@)),
{
    let ghost rows = object_rows(a@);
    if a.len() == 0 {
        return Vec::new();
    }
    let allk = rows_keys_exec(a);
    let sd = sort_dedup_strings(&allk);
    let cols = prioritized_exec(&sd);
    let ghost cs = strs_view(cols@);
    assert(cs == table_cols(rows));
    let mut widths: Vec<usize> = Vec::new();
    let mut hcells: Vec<Vec<char>> = Vec::new();
    let mut j: usize = 0;
    while j < cols.len()
        invariant
            j <= cols@.len(),
            cs == strs_view(cols@),
            rows == object_rows(a@),
            widths@.len() == j,
            forall|k: int| 0 <= k < j ==> #[trigger] widths@[k] == col_width(rows, cs[k]),
            vecs_view(hcells@) == header_cells(rows, cs).take(j as int),
        decreases cols@.len() - j,
    {
        let w = col_width_exec(a, cols[j].as_str());
        let cc = chars_of(cols[j].as_str());
        let cell = padded_cell_exec(&cc, w);
        widths.push(w);
        let ghost before = hcells@;
        hcells.push(cell);
        proof {
            assert(vecs_view(hcells@) =~= vecs_view(before).push(cell@));
            assert(header_cells(rows, cs).take(j + 1) =~= header_cells(rows, cs).take(j as int).push(cell@));
        }
        j = j + 1;
    }
    proof {
        assert(header_cells(rows, cs).take(cols@.len() as int) =~= header_cells(rows, cs));
    }
    let mut num: Vec<char> = Vec::new();
    push_decimal(&mut num, a.len() as u128 + 1);
    let iw = num.len();
    let mut header = chars_of("      ");
    let hash = chars_of("#");
    push_padded(&mut header, &hash, iw);
    push_str(&mut header, "  ");
    let joined = join_chars(&hcells, "  ");
    push_chars(&mut header, &joined);
    assert(header@ == header_line(rows));
    let mut acc: u128 = 0;
    let mut j: usize = 0;
    while j < hcells.len()
        invariant
            j <= hcells@.len(),
            acc == if sum_bytes(vecs_view(hcells@).take(j as int)) < 121 {
                sum_bytes(vecs_view(hcells@).take(j as int))
            } else {
                121
            },
        decreases hcells@.len() - j,
    {
        let b = byte_len_of(&hcells[j]);
        proof {
            let t = vecs_view(hcells@).take(j + 1);
            assert(t.drop_last() =~= vecs_view(hcells@).take(j as int));
            assert(t.last() == hcells@[j as int]@);
            lemma_byte_len_bound(hcells@[j as int]@);
            assert(hcells@[j as int]@.len() == hcells[j as int].len());
        }
        acc = if acc + b > 121 { 121 } else { acc + b };
        j = j + 1;
    }
    proof {
        assert(vecs_view(hcells@).take(hcells@.len() as int) =~= vecs_view(hcells@));
    }
    let gaps: u128 = if hcells.len() > 0 { 2 * (hcells.len() as u128 - 1) } else { 0 };
    let total: u128 = iw as u128 + 2 + acc + gaps;
    let nd: usize = if total < 120 { total as usize } else { 120 };
    let mut rule = chars_of("      ");
    let mut k: usize = 0;
    let ghost rule0 = rule@;
    while k < nd
        invariant
            k <= nd,
            rule@ == rule0 + repeat_char('-', k as nat),
        decreases nd - k,
    {
        rule.push('-');
        k = k + 1;
        proof {
            assert(repeat_char('-', k as nat) =~= repeat_char('-', (k - 1) as nat).push('-'));
        }
    }
    assert(rule@ == rule_line(rows));
    let mut lines: Vec<Vec<char>> = Vec::new();
    lines.push(header);
    lines.push(rule);
    let null_row: Vec<(String, Json)> = Vec::new();
    let mut i: usize = 0;
    while i < a.len()
        invariant
            i <= a@.len(),
            rows == object_rows(a@),
            cs == strs_view(cols@),
            cs == table_cols(rows),
            widths@.len() == cols@.len(),
            forall|k: int| 0 <= k < cols@.len() ==> #[trigger] widths@[k] == col_width(rows, cs[k]),
            iw == idx_width(rows.len()),
            null_row@ == Seq::<(String, Json)>::empty(),
            vecs_view(lines@) == seq![header_line(rows), rule_line(rows)] + Seq::new(
                i as nat,
                |k: int| row_line(rows, k),
            ),
        decreases a@.len() - i,
    {
        let row: &Vec<(String, Json)> = match &a[i] {
            Json::Object(es) => es,
            _ => &null_row,
        };
        assert(row@ == rows[i as int]);
        let mut cells: Vec<Vec<char>> = Vec::new();
        let mut j: usize = 0;
        while j < cols.len()
            invariant
                j <= cols@.len() == widths@.len(),
                cs == strs_view(cols@),
                forall|k: int| 0 <= k < cols@.len() ==> #[trigger] widths@[k] == col_width(rows, cs[k]),
                vecs_view(cells@) == row_cells(rows, cs, row@).take(j as int),
            decreases cols@.len() - j,
        {
            let t = cell_text_exec(row, cols[j].as_str());
            let cell = padded_cell_exec(&t, widths[j]);
            let ghost before = cells@;
            cells.push(cell);
            proof {
                assert(vecs_view(cells@) =~= vecs_view(before).push(cell@));
                assert(row_cells(rows, cs, row@).take(j + 1) =~= row_cells(rows, cs, row@).take(j as int).push(cell@));
            }
            j = j + 1;
        }
        proof {
            assert(row_cells(rows, cs, row@).take(cols@.len() as int) =~= row_cells(rows, cs, row@));
        }
        let mut idx: Vec<char> = Vec::new();
        push_decimal(&mut idx, i as u128 + 1);
        let mut line = chars_of("      ");
        if idx.len() < iw {
            crate::text::push_spaces(&mut line, iw - idx.len());
        }
        push_chars(&mut line, &idx);
        push_str(&mut line, "  ");
        let jc = join_chars(&cells, "  ");
        push_chars(&mut line, &jc);
        proof {
            assert(line@ =~= row_line(rows, i as int));
        }
        let ghost before = lines@;
        lines.push(line);
        proof {
            assert(vecs_view(lines@) =~= vecs_view(before).push(line@));
            assert(Seq::new((i + 1) as nat, |k: int| row_line(rows, k)) =~= Seq::new(
                i as nat,
                |k: int| row_line(rows, k),
            ).push(row_line(rows, i as int)));
        }
        i = i + 1;
    }
    proof {
        assert(vecs_view(lines@) =~= table_lines(rows));
    }
    join_chars(&lines, "\n")
}

// ---------------------------------------------------------------------------
// Objects
// ---------------------------------------------------------------------------

/// An array that is not a table: `(empty)`, or its compact JSON cut at 239 bytes when it
/// is longer than 240.
pub open spec fn non_object_array(v: Json) -> Seq<char> {
    if v matches Json::Array(a) && a.len() == 0 {
        "(empty)"@
    } else {
        let nested = spec_json_compact(v);
        if byte_len(nested) > 240 {
            truncated_cell(nested, 239)
        } else {
            nested
        }
    }
}

/// The `key: value` pairs and the blocks read from the members `ks` of an object, with
/// `pad` as indentation.
pub open spec fn read_items(es: Seq<(String, Json)>, ks: Seq<Seq<char>>, pad: Seq<char>) -> (
    Seq<(Seq<char>, Seq<char>)>,
    Seq<Seq<char>>,
)
    decreases entries_height(es), ks.len(),
{
    if ks.len() == 0 {
        (Seq::empty(), Seq::empty())
    } else {
        let prev = read_items(es, ks.drop_last(), pad);
        let k = ks.last();
        let v = member_or_null(es, k);
        match v {
            Json::Object(m) => {
                if m.len() > 0 {
                    proof {
                        lemma_entries_get_height(es, k);
                    }
                    let inner = pad + "  "@;
                    let title = section_title(k);
                    let body = assemble(
                        read_items(m@, isort(keys_of(m@), str_gt()), inner),
                        inner,
                    );
                    let ul = repeat_char('-', clamp_nat(byte_len(title) + 8, 16, 64));
                    (prev.0, prev.1.push(pad + title + "\n"@ + pad + ul + "\n"@ + body))
                } else {
                    (prev.0.push((k, leaf_display(v))), prev.1)
                }
            },
            Json::Array(a) => {
                if a.len() == 0 {
                    (prev.0.push((k, "(empty)"@)), prev.1)
                } else if all_objects(a@) {
                    let note = pad + section_title(k) + "  ("@ + decimal(a@.len()) + " "@ + if a@.len()
                        == 1 {
                        "entry"@
                    } else {
                        "entries"@
                    } + ")"@;
                    (prev.0, prev.1.push(note + "\n"@ + spec_table(object_rows(a@))))
                } else {
                    (prev.0.push((k, non_object_array(v))), prev.1)
                }
            },
            Json::Null => (prev.0.push((k, "—"@)), prev.1),
            _ => (prev.0.push((k, leaf_display(v))), prev.1),
        }
    }
}

/// The widest `key:` among the pairs, in bytes.
pub open spec fn pair_key_width(kvs: Seq<(Seq<char>, Seq<char>)>) -> nat
    decreases kvs.len(),
{
    if kvs.len() == 0 {
        0
    } else {
        let a = pair_key_width(kvs.drop_last());
        let b = byte_len(kvs.last().0) + 1;
        if a < b { b } else { a }
    }
}

/// The pairs as aligned lines: `key:` padded to the widest (held within 10..=36), two
/// spaces, the value.
pub open spec fn pairs_chunk(kvs: Seq<(Seq<char>, Seq<char>)>, pad: Seq<char>) -> Seq<char> {
    let kw = clamp_nat(pair_key_width(kvs), 10, 36);
    join_seq(
        kvs.map_values(|p: (Seq<char>, Seq<char>)| pad + pad_right(p.0 + ":"@, kw) + "  "@ + p.1),
        "\n"@,
    )
}

/// The pairs (if any) and then the blocks, one per line group.
pub open spec fn assemble(items: (Seq<(Seq<char>, Seq<char>)>, Seq<Seq<char>>), pad: Seq<char>) -> Seq<
    char,
> {
    let chunks = if items.0.len() > 0 {
        seq![pairs_chunk(items.0, pad)]
    } else {
        Seq::empty()
    } + items.1;
    join_seq(chunks, "\n"@)
}

/// An object shown readably: its members in key order, scalars as aligned pairs, nested
/// objects and arrays of objects as blocks after them.
pub open spec fn spec_readable(es: Seq<(String, Json)>, pad: Seq<char>) -> Seq<char> {
    assemble(read_items(es, isort(keys_of(es), str_gt()), pad), pad)
}

fn non_object_array_exec(v: &Json) -> (r: Vec<char>)
    ensures
        r@ == non_object_array(*v),
{
    if let Json::Array(a) = v {
        if a.len() == 0 {
            return chars_of("(empty)");
        }
    }
    let t = json_compact(v);
    let nested = chars_of(t.as_str());
    if byte_len_of(&nested) > 240 {
        truncated_cell_exec(&nested, 239)
    } else {
        nested
    }
}

fn all_objects_exec(a: &Vec<Json>) -> (b: bool)
    ensures
        b == all_objects(a@),
{
    let mut i: usize = 0;
    while i < a.len()
        invariant
            i <= a@.len(),
            forall|j: int| 0 <= j < i ==> (#[trigger] a@[j]) is Object,
        decreases a@.len() - i,
    {
        match &a[i] {
            Json::Object(_) => {},
            _ => {
                return false;
            },
        }
        i = i + 1;
    }
    true
}

/// The texts of pairs of character vectors.
pub open spec fn pairs_view(s: Seq<(Vec<char>, Vec<char>)>) -> Seq<(Seq<char>, Seq<char>)> {
    s.map_values(|p: (Vec<char>, Vec<char>)| (p.0@, p.1@))
}

fn pairs_chunk_exec(kvs: &Vec<(Vec<char>, Vec<char>)>, pad: &Vec<char>) -> (r: Vec<char>)
    ensures
        r@ == pairs_chunk(pairs_view(kvs@), pad@),
{
    let ghost pv = pairs_view(kvs@);
    let mut m: u128 = 0;
    let mut i: usize = 0;
    while i < kvs.len()
        invariant
            i <= kvs@.len(),
            pv == pairs_view(kvs@),
            m == pair_key_width(pv.take(i as int)),
        decreases kvs@.len() - i,
    {
        let b = byte_len_of(&kvs[i].0);
        proof {
            let t = pv.take(i + 1);
            assert(t.drop_last() =~= pv.take(i as int));
            assert(t.last() == pv[i as int]);
            lemma_byte_len_bound(kvs@[i as int].0@);
            assert(kvs@[i as int].0@.len() == kvs[i as int].0.len());
        }
        if m < b + 1 {
            m = b + 1;
        }
        i = i + 1;
    }
    proof {
        assert(pv.take(kvs@.len() as int) =~= pv);
    }
    let kw: usize = if m < 10 { 10 } else if m > 36 { 36 } else { m as usize };
    let ghost f = |p: (Seq<char>, Seq<char>)| pad@ + pad_right(p.0 + ":"@, kw as nat) + "  "@ + p.1;
    let mut lines: Vec<Vec<char>> = Vec::new();
    let mut i: usize = 0;
    while i < kvs.len()
        invariant
            i <= kvs@.len(),
            pv == pairs_view(kvs@),
            f == (|p: (Seq<char>, Seq<char>)| pad@ + pad_right(p.0 + ":"@, kw as nat) + "  "@ + p.1),
            vecs_view(lines@) == pv.take(i as int).map_values(f),
        decreases kvs@.len() - i,
    {
        let mut line = pad.clone();
        let mut k = kvs[i].0.clone();
        k.push(':');
        push_padded(&mut line, &k, kw);
        push_str(&mut line, "  ");
        push_chars(&mut line, &kvs[i].1);
        let ghost before = lines@;
        lines.push(line);
        proof {
            assert(k@ =~= kvs@[i as int].0@ + ":"@) by {
                reveal_strlit(":");
            }
            assert(line@ == f(pv[i as int]));
            assert(vecs_view(lines@) =~= vecs_view(before).push(line@));
            assert(pv.take(i + 1).map_values(f) =~= pv.take(i as int).map_values(f).push(f(pv[i as int])));
        }
        i = i + 1;
    }
    proof {
        assert(pv.take(kvs@.len() as int) =~= pv);
    }
    join_chars(&lines, "\n")
}

fn dashes_exec(out: &mut Vec<char>, c: char, n: usize)
    ensures
        final(out)@ == old(out)@ + repeat_char(c, n as nat),
{
    let ghost start = out@;
    let mut k: usize = 0;
    while k < n
        invariant
            k <= n,
            out@ == start + repeat_char(c, k as nat),
        decreases n - k,
    {
        out.push(c);
        k = k + 1;
        proof {
            assert(repeat_char(c, k as nat) =~= repeat_char(c, (k - 1) as nat).push(c));
        }
    }
}

/// `x` held within `lo..=hi` (for `lo <= hi`).
fn clamp_u128(x: u128, lo: usize, hi: usize) -> (r: usize)
    requires
        lo <= hi,
    ensures
        r == clamp_nat(x as nat, lo as nat, hi as nat),
{
    if x < lo as u128 {
        lo
    } else if x > hi as u128 {
        hi
    } else {
        x as usize
    }
}

fn readable_exec(es: &Vec<(String, Json)>, pad: &Vec<char>) -> (r: Vec<char>)
    ensures
        r@ == spec_readable(es@, pad@),
    decreases entries_height(es@),
{
    let keys0 = object_keys(es);
    let ks = sort_strings(&keys0);
    let ghost sk = strs_view(ks@);
    assert(sk == isort(keys_of(es@), str_gt()));
    let mut pairs: Vec<(Vec<char>, Vec<char>)> = Vec::new();
    let mut blocks: Vec<Vec<char>> = Vec::new();
    let mut i: usize = 0;
    while i < ks.len()
        invariant
            i <= ks@.len(),
            sk == strs_view(ks@),
            read_items(es@, sk.take(i as int), pad@) == (pairs_view(pairs@), vecs_view(blocks@)),
        decreases ks@.len() - i,
    {
        let k = ks[i].as_str();
        let kc = chars_of(k);
        proof {
            let t = sk.take(i + 1);
            assert(t.drop_last() =~= sk.take(i as int));
            assert(t.last() == k@);
        }
        let ghost prev_pairs = pairs_view(pairs@);
        let ghost prev_blocks = vecs_view(blocks@);
        let ghost v = member_or_null(es@, k@);
        let null = Json::Null;
        let vr = match entries_lookup(es, k) {
            Some(x) => x,
            None => &null,
        };
        assert(*vr == v);
        let mut pair_val: Option<Vec<char>> = None;
        match vr {
            Json::Object(m) => {
                if m.len() > 0 {
                    proof {
                        lemma_entries_get_height(es@, k@);
                    }
                    let mut inner = pad.clone();
                    inner.push(' ');
                    inner.push(' ');
                    proof {
                        assert(inner@ =~= pad@ + "  "@) by {
                            reveal_strlit("  ");
                        }
                    }
                    let body = readable_exec(m, &inner);
                    let title = section_title_exec(&kc);
                    let tb = byte_len_of(&title);
                    proof {
                        lemma_byte_len_bound(title@);
                        assert(title@.len() == title.len());
                    }
                    let n = clamp_u128(tb + 8, 16, 64);
                    let mut block = pad.clone();
                    push_chars(&mut block, &title);
                    push_str(&mut block, "\n");
                    push_chars(&mut block, pad);
                    dashes_exec(&mut block, '-', n);
                    push_str(&mut block, "\n");
                    push_chars(&mut block, &body);
                    let ghost b0 = blocks@;
                    blocks.push(block);
                    proof {
                        assert(vecs_view(blocks@) =~= vecs_view(b0).push(block@));
                    }
                } else {
                    pair_val = Some(leaf_display_exec(vr));
                }
            },
            Json::Array(a) => {
                if a.len() == 0 {
                    pair_val = Some(chars_of("(empty)"));
                } else if all_objects_exec(a) {
                    let title = section_title_exec(&kc);
                    let mut block = pad.clone();
                    push_chars(&mut block, &title);
                    push_str(&mut block, "  (");
                    push_decimal(&mut block, a.len() as u128);
                    push_str(&mut block, " ");
                    if a.len() == 1 {
                        push_str(&mut block, "entry");
                    } else {
                        push_str(&mut block, "entries");
                    }
                    push_str(&mut block, ")");
                    push_str(&mut block, "\n");
                    let tbl = table_exec(a);
                    push_chars(&mut block, &tbl);
                    let ghost b0 = blocks@;
                    blocks.push(block);
                    proof {
                        assert(vecs_view(blocks@) =~= vecs_view(b0).push(block@));
                    }
                } else {
                    pair_val = Some(non_object_array_exec(vr));
                }
            },
            Json::Null => {
                pair_val = Some(chars_of("—"));
            },
            _ => {
                pair_val = Some(leaf_display_exec(vr));
            },
        }
        if let Some(pv) = pair_val {
            let ghost p0 = pairs@;
            pairs.push((kc, pv));
            proof {
                assert(pairs_view(pairs@) =~= pairs_view(p0).push((k@, pv@)));
            }
        }
        assert(read_items(es@, sk.take(i + 1), pad@) == (pairs_view(pairs@), vecs_view(blocks@)));
        i = i + 1;
    }
    proof {
        assert(sk.take(ks@.len() as int) =~= sk);
    }
    let mut chunks: Vec<Vec<char>> = Vec::new();
    if pairs.len() > 0 {
        let c = pairs_chunk_exec(&pairs, pad);
        chunks.push(c);
    }
    let ghost c0 = vecs_view(chunks@);
    let mut j: usize = 0;
    while j < blocks.len()
        invariant
            j <= blocks@.len(),
            vecs_view(chunks@) == c0 + vecs_view(blocks@).take(j as int),
        decreases blocks@.len() - j,
    {
        let b = blocks[j].clone();
        let ghost before = chunks@;
        chunks.push(b);
        proof {
            assert(vecs_view(chunks@) =~= vecs_view(before).push(b@));
            assert(vecs_view(blocks@).take(j + 1) =~= vecs_view(blocks@).take(j as int).push(blocks@[j as int]@));
        }
        j = j + 1;
    }
    proof {
        assert(vecs_view(blocks@).take(blocks@.len() as int) =~= vecs_view(blocks@));
        if pairs@.len() == 0 {
            assert(vecs_view(chunks@) =~= Seq::<Seq<char>>::empty() + vecs_view(blocks@));
        } else {
            assert(vecs_view(chunks@) =~= seq![pairs_chunk(pairs_view(pairs@), pad@)] + vecs_view(blocks@));
        }
    }
    join_chars(&chunks, "\n")
}

// ---------------------------------------------------------------------------
// The whole record
// ---------------------------------------------------------------------------

/// Members shown first when present, in this order.
pub open spec fn boot_keys() -> Seq<Seq<char>> {
    seq!["meta"@, "session"@, "user"@]
}

/// Whether `k` is one of [`boot_keys`].
pub open spec fn not_boot() -> spec_fn(Seq<char>) -> bool {
    |k: Seq<char>| !boot_keys().contains(k)
}

/// Whether the entries have member `k`.
pub open spec fn has_member(es: Seq<(String, Json)>) -> spec_fn(Seq<char>) -> bool {
    |k: Seq<char>| entries_has(es, k)
}

/// Section order: `meta`, `session`, `user` when present, then the other members sorted.
pub open spec fn envelope_order(es: Seq<(String, Json)>) -> Seq<Seq<char>> {
    keep(boot_keys(), has_member(es)) + isort(keep(keys_of(es), not_boot()), str_gt())
}

/// One section: the title, a rule of `─` and the member shown readably (indented two
/// spaces).
pub open spec fn section_block(key: Seq<char>, v: Json) -> Seq<char> {
    let title = section_title(key);
    let ul = repeat_char('─', clamp_nat(byte_len(title) + 16, 24, 64));
    title + "\n"@ + ul + "\n"@ + match v {
        Json::Object(m) => spec_readable(m@, "  "@),
        _ => "  "@ + leaf_display(v),
    }
}

/// The "Pretty" view of an identity record: one section per member of an object, blank
/// lines between them; anything but an object as pretty JSON.
pub open spec fn spec_identity_pretty(v: Json) -> Seq<char> {
    match v {
        Json::Object(es) => join_seq(
            envelope_order(es@).map_values(|k: Seq<char>| section_block(k, member_or_null(es@, k))),
            "\n\n"@,
        ),
        _ => spec_json_pretty(v),
    }
}

fn boot_key_names() -> (r: Vec<&'static str>)
    ensures
        r@.map_values(|n: &'static str| n@) == boot_keys(),
{
    let r = vec!["meta", "session", "user"];
    proof {
        assert(r@.map_values(|n: &'static str| n@) =~= boot_keys());
    }
    r
}

fn envelope_order_exec(es: &Vec<(String, Json)>) -> (r: Vec<String>)
    ensures
        strs_view(r@) == envelope_order(es@),
{
    let boot = boot_key_names();
    let ghost bs = boot@.map_values(|n: &'static str| n@);
    let mut out: Vec<String> = Vec::new();
    let mut i: usize = 0;
    while i < boot.len()
        invariant
            i <= boot@.len(),
            bs == boot@.map_values(|n: &'static str| n@),
            bs == boot_keys(),
            strs_view(out@) == keep(bs.take(i as int), has_member(es@)),
        decreases boot@.len() - i,
    {
        proof {
            assert(bs.take(i + 1).drop_last() =~= bs.take(i as int));
            assert(bs.take(i + 1).last() == boot@[i as int]@);
        }
        if entries_lookup(es, boot[i]).is_some() {
            let k = boot[i].to_owned();
            let ghost before = out@;
            out.push(k);
            proof {
                assert(strs_view(out@) =~= strs_view(before).push(k@));
            }
        }
        i = i + 1;
    }
    proof {
        assert(bs.take(boot@.len() as int) =~= bs);
    }
    let keys = object_keys(es);
    let mut rest: Vec<String> = Vec::new();
    let mut i: usize = 0;
    while i < keys.len()
        invariant
            i <= keys@.len(),
            bs == boot@.map_values(|n: &'static str| n@),
            bs == boot_keys(),
            strs_view(rest@) == keep(strs_view(keys@).take(i as int), not_boot()),
        decreases keys@.len() - i,
    {
        proof {
            assert(strs_view(keys@).take(i + 1).drop_last() =~= strs_view(keys@).take(i as int));
            assert(strs_view(keys@).take(i + 1).last() == keys@[i as int]@);
        }
        if !contains_str(&boot, keys[i].as_str()) {
            let k = keys[i].clone();
            let ghost before = rest@;
            rest.push(k);
            proof {
                assert(strs_view(rest@) =~= strs_view(before).push(k@));
            }
        }
        i = i + 1;
    }
    proof {
        assert(strs_view(keys@).take(keys@.len() as int) =~= strs_view(keys@));
    }
    let sorted = sort_strings(&rest);
    let ghost a = strs_view(out@);
    let mut j: usize = 0;
    while j < sorted.len()
        invariant
            j <= sorted@.len(),
            strs_view(out@) == a + strs_view(sorted@).take(j as int),
        decreases sorted@.len() - j,
    {
        let x = sorted[j].clone();
        let ghost before = out@;
        out.push(x);
        proof {
            assert(strs_view(out@) =~= strs_view(before).push(x@));
            assert(strs_view(sorted@).take(j + 1) =~= strs_view(sorted@).take(j as int).push(sorted@[j as int]@));
        }
        j = j + 1;
    }
    proof {
        assert(strs_view(sorted@).take(sorted@.len() as int) =~= strs_view(sorted@));
    }
    out
}

fn section_block_exec(key: &str, v: &Json) -> (r: Vec<char>)
    ensures
        r@ == section_block(key@, *v),
{
    let kc = chars_of(key);
    let title = section_title_exec(&kc);
    let tb = byte_len_of(&title);
    proof {
        lemma_byte_len_bound(title@);
        assert(title@.len() == title.len());
    }
    let n = clamp_u128(tb + 16, 24, 64);
    let mut out = title.clone();
    push_str(&mut out, "\n");
    dashes_exec(&mut out, '─', n);
    push_str(&mut out, "\n");
    match v {
        Json::Object(m) => {
            let pad = chars_of("  ");
            let body = readable_exec(m, &pad);
            push_chars(&mut out, &body);
        },
        _ => {
            push_str(&mut out, "  ");
            let leaf = leaf_display_exec(v);
            push_chars(&mut out, &leaf);
        },
    }
    out
}

/// The "Pretty" view of an identity record (`GET /v1/userinfo`).
pub fn format_identity_pretty_display(v: &Json) -> (r: String)
    ensures
        r@ == spec_identity_pretty(*v),
{
    match v {
        Json::Object(es) => {
            let order = envelope_order_exec(es);
            let ghost ov = strs_view(order@);
            let ghost f = |k: Seq<char>| section_block(k, member_or_null(es@, k));
            let mut blocks: Vec<Vec<char>> = Vec::new();
            let mut i: usize = 0;
            while i < order.len()
                invariant
                    i <= order@.len(),
                    ov == strs_view(order@),
                    f == (|k: Seq<char>| section_block(k, member_or_null(es@, k))),
                    vecs_view(blocks@) == ov.take(i as int).map_values(f),
                decreases order@.len() - i,
            {
                let null = Json::Null;
                let vv = match entries_lookup(es, order[i].as_str()) {
                    Some(x) => x,
                    None => &null,
                };
                let b = section_block_exec(order[i].as_str(), vv);
                let ghost before = blocks@;
                blocks.push(b);
                proof {
                    assert(vecs_view(blocks@) =~= vecs_view(before).push(b@));
                    assert(ov.take(i + 1).map_values(f) =~= ov.take(i as int).map_values(f).push(f(ov[i as int])));
                }
                i = i + 1;
            }
            proof {
                assert(ov.take(order@.len() as int) =~= ov);
            }
            let t = join_chars(&blocks, "\n\n");
            string_of(&t)
        },
        _ => json_pretty(v),
    }
}

/// The "Pretty" and "Raw" views of an identity record: the tabular text and indented
/// JSON.
pub fn format_identity_json_pair(v: &Json) -> (r: (String, String))
    ensures
        r.0@ == spec_identity_pretty(*v),
        r.1@ == spec_json_pretty(*v),
{
    let pretty = format_identity_pretty_display(v);
    let raw = json_pretty(v);
    (pretty, raw)
}

/// The `/whoami` report: the identity banner with the Pretty view or the error, then the
/// credentials note after a blank line.
pub open spec fn spec_whoami_report(
    api_origin: Seq<char>,
    fetched: Result<Json, Seq<char>>,
    note: Option<Seq<char>>,
) -> Seq<char> {
    let head = banner("Identity"@, endpoint_url(api_origin, "/v1/userinfo"@));
    let section = match fetched {
        Ok(j) => head + "\n"@ + spec_identity_pretty(j),
        Err(e) => head + "\n  (could not load) "@ + e,
    };
    match note {
        Some(n) => section + "\n\n"@ + n,
        None => section,
    }
}

/// Builds the `/whoami` report from what `GET {api_origin}/v1/userinfo` gave (the
/// document, or the message of why it could not be read).
pub fn compose_whoami_report(
    api_origin: &str,
    fetched: &Result<Json, String>,
    credentials_file_note: Option<String>,
) -> (r: String)
    ensures
        r@ == spec_whoami_report(api_origin@, outcome_view(*fetched), crate::text::opt_view(credentials_file_note)),
{
    let url = crate::whoami::userinfo_endpoint_display(api_origin);
    let mut v: Vec<char> = Vec::new();
    push_str(&mut v, "── ");
    push_str(&mut v, "Identity");
    push_str(&mut v, " (");
    push_str(&mut v, url.as_str());
    push_str(&mut v, ") ──");
    match fetched {
        Ok(j) => {
            push_str(&mut v, "\n");
            let (pretty, _raw) = format_identity_json_pair(j);
            push_str(&mut v, pretty.as_str());
        },
        Err(e) => {
            push_str(&mut v, "\n  (could not load) ");
            push_str(&mut v, e.as_str());
        },
    }
    match &credentials_file_note {
        Some(n) => {
            push_str(&mut v, "\n\n");
            push_str(&mut v, n.as_str());
        },
        None => {},
    }
    proof {
        assert(v@ =~= spec_whoami_report(api_origin@, outcome_view(*fetched), crate::text::opt_view(credentials_file_note)));
    }
    string_of(&v)
}

// ---------------------------------------------------------------------------
// Laws
// ---------------------------------------------------------------------------

/// The Pretty view of an identity object has one section per member and no other:
/// `meta`, `session` and `user` first when present, then the rest in key order.
pub proof fn law_identity_sections_are_members(es: Seq<(String, Json)>)
    ensures
        forall|k: Seq<char>|
            #![trigger envelope_order(es).contains(k)]
            envelope_order(es).contains(k) <==> keys_of(es).contains(k),
        envelope_order(es).take(keep(boot_keys(), has_member(es)).len() as int) == keep(
            boot_keys(),
            has_member(es),
        ),
{
    let a = keep(boot_keys(), has_member(es));
    let b = keep(keys_of(es), not_boot());
    lemma_keep_sub(boot_keys(), has_member(es));
    lemma_keep_sub(keys_of(es), not_boot());
    assert(envelope_order(es).take(a.len() as int) =~= a);
    assert forall|k: Seq<char>|
        #![trigger envelope_order(es).contains(k)]
        envelope_order(es).contains(k) <==> keys_of(es).contains(k) by {
        let e = envelope_order(es);
        lemma_isort_contains(b, str_gt(), k);
        if e.contains(k) {
            let i = choose|i: int| 0 <= i < e.len() && e[i] == k;
            if i < a.len() {
                assert(a[i] == k);
                assert(has_member(es)(a[i]));
                let j = lemma_entries_get_at(es, k);
                assert(keys_of(es)[j] == k);
            } else {
                assert(isort(b, str_gt())[i - a.len()] == k);
                let j = choose|j: int| 0 <= j < b.len() && b[j] == k;
                assert(keys_of(es).contains(b[j]));
            }
        }
        if keys_of(es).contains(k) {
            if boot_keys().contains(k) {
                lemma_key_is_member(es, k);
                lemma_keep_contains(boot_keys(), has_member(es), k);
                let i = choose|i: int| 0 <= i < a.len() && a[i] == k;
                assert(e[i] == k);
            } else {
                lemma_keep_contains(keys_of(es), not_boot(), k);
                let i = choose|i: int| 0 <= i < isort(b, str_gt()).len() && isort(b, str_gt())[i] == k;
                assert(e[a.len() + i] == k);
            }
        }
    }
}

} // verus!
