//! REST responses of the Authdog API: error previews, how a response is read, and the
//! report text shown for a listing.

use vstd::prelude::*;

use crate::json::{json_pretty, parse_json_str, read_json_bytes, spec_json_parse, spec_json_pretty, spec_json_read, Json};
use crate::text::{
    char_code, chars_of, contains, contains_seq, decimal, opt_view, push_chars, push_decimal,
    push_str, string_of, trim_end_char, trim_end_char_seq,
};
use vstd::utf8::encode_utf8;
use vstd::string::StringSliceAdditionalSpecFns;

verus! {

/// `http::StatusCode::canonical_reason` for a valid status code.
pub uninterp spec fn spec_canonical_reason(code: u16) -> Option<Seq<char>>;

/// Calls `reqwest::StatusCode::from_u16(code)` (which accepts exactly `100..=999`; `None`
/// for other codes) and returns `canonical_reason()`; the reason is named
/// [`spec_canonical_reason`].
#[verifier::external_body]
pub(crate) fn canonical_reason(code: u16) -> (r: Option<String>)
    ensures
        opt_view(r) == spec_canonical_reason(code),
{
    match reqwest::StatusCode::from_u16(code) {
        Ok(s) => s.canonical_reason().map(|x| x.to_string()),
        Err(_) => None,
    }
}

/// `StatusCode`'s `Display`: the code, a space, and the canonical reason (or
/// `<unknown status code>`).
pub open spec fn spec_status_display(code: u16) -> Seq<char> {
    decimal(code as nat) + " "@ + match spec_canonical_reason(code) {
        Some(r) => r,
        None => "<unknown status code>"@,
    }
}

/// Text of a status code as `StatusCode` displays it.
pub fn status_display(code: u16) -> (r: Vec<char>)
    requires
        100 <= code <= 999,
    ensures
        r@ == spec_status_display(code),
{
    let mut v: Vec<char> = Vec::new();
    push_decimal(&mut v, code as u128);
    push_str(&mut v, " ");
    match canonical_reason(code) {
        Some(r) => push_str(&mut v, r.as_str()),
        None => push_str(&mut v, "<unknown status code>"),
    }
    v
}

// ---------------------------------------------------------------------------
// Body previews
// ---------------------------------------------------------------------------

/// Number of UTF-8 bytes of one character.
pub open spec fn utf8_width(c: char) -> nat {
    let u = c as int;
    if u < 0x80 {
        1
    } else if u < 0x800 {
        2
    } else if u < 0x10000 {
        3
    } else {
        4
    }
}

/// Number of UTF-8 bytes of a text (`str::len`).
pub open spec fn byte_len(s: Seq<char>) -> nat
    decreases s.len(),
{
    if s.len() == 0 {
        0
    } else {
        byte_len(s.drop_last()) + utf8_width(s.last())
    }
}

/// The longest prefix of `s` whose UTF-8 encoding fits in `max` bytes (cutting at a char
/// boundary at or below `max`).
pub open spec fn prefix_within(s: Seq<char>, max: nat) -> Seq<char>
    decreases s.len(),
{
    if byte_len(s) <= max {
        s
    } else {
        prefix_within(s.drop_last(), max)
    }
}

/// `summarize_body_preview`: the body itself when it fits in `max` bytes, otherwise its
/// longest fitting prefix followed by ` … (+N bytes)`.
pub open spec fn spec_summarize(body: Seq<char>, max: nat) -> Seq<char> {
    if byte_len(body) <= max {
        body
    } else {
        let p = prefix_within(body, max);
        p + " … (+"@ + decimal((byte_len(body) - byte_len(p)) as nat) + " bytes)"@
    }
}

/// Byte length adds up over concatenation.
pub proof fn lemma_byte_len_concat(a: Seq<char>, b: Seq<char>)
    ensures
        byte_len(a + b) == byte_len(a) + byte_len(b),
    decreases b.len(),
{
    if b.len() == 0 {
        assert(a + b =~= a);
    } else {
        lemma_byte_len_concat(a, b.drop_last());
        assert((a + b).drop_last() =~= a + b.drop_last());
    }
}

/// A character takes at most four bytes.
pub proof fn lemma_byte_len_bound(s: Seq<char>)
    ensures
        byte_len(s) <= 4 * s.len(),
    decreases s.len(),
{
    if s.len() > 0 {
        lemma_byte_len_bound(s.drop_last());
    }
}

proof fn lemma_byte_len_take(s: Seq<char>, k: int)
    requires
        0 <= k < s.len(),
    ensures
        byte_len(s.take(k + 1)) == byte_len(s.take(k)) + utf8_width(s[k]),
{
    assert(s.take(k + 1).drop_last() =~= s.take(k));
}

proof fn lemma_byte_len_mono(s: Seq<char>, a: int, b: int)
    requires
        0 <= a <= b <= s.len(),
    ensures
        byte_len(s.take(a)) <= byte_len(s.take(b)),
    decreases b - a,
{
    if a < b {
        lemma_byte_len_take(s, b - 1);
        lemma_byte_len_mono(s, a, b - 1);
    }
}

/// `prefix_within` is the longest prefix that fits.
proof fn lemma_prefix_within(s: Seq<char>, max: nat, k: int)
    requires
        0 <= k <= s.len(),
        byte_len(s.take(k)) <= max,
        k == s.len() || byte_len(s.take(k + 1)) > max,
    ensures
        prefix_within(s, max) == s.take(k),
    decreases s.len(),
{
    if k == s.len() {
        assert(s.take(k) =~= s);
    } else {
        lemma_byte_len_mono(s, k + 1, s.len() as int);
        assert(s.take(s.len() as int) =~= s);
        assert(s.drop_last().take(k) =~= s.take(k));
        if k + 1 < s.len() {
            assert(s.drop_last().take(k + 1) =~= s.take(k + 1));
        }
        lemma_prefix_within(s.drop_last(), max, k);
    }
}

fn utf8_width_exec(c: char) -> (w: usize)
    ensures
        w == utf8_width(c),
{
    let u = char_code(c);
    if u < 0x80 {
        1
    } else if u < 0x800 {
        2
    } else if u < 0x10000 {
        3
    } else {
        4
    }
}

/// Number of UTF-8 bytes of the text.
pub fn byte_len_of(s: &[char]) -> (n: u128)
    ensures
        n == byte_len(s@),
{
    let mut n: u128 = 0;
    let mut i: usize = 0;
    while i < s.len()
        invariant
            i <= s@.len(),
            n == byte_len(s@.take(i as int)),
            n <= 4 * i,
        decreases s@.len() - i,
    {
        proof {
            lemma_byte_len_take(s@, i as int);
        }
        n = n + utf8_width_exec(s[i]) as u128;
        i = i + 1;
    }
    proof {
        assert(s@.take(s@.len() as int) =~= s@);
    }
    n
}

/// The longest prefix of `s` that fits in `max` UTF-8 bytes.
pub fn prefix_within_exec(s: &[char], max: usize) -> (r: Vec<char>)
    ensures
        r@ == prefix_within(s@, max as nat),
        r@.len() <= s@.len(),
{
    let mut k: usize = 0;
    let mut n: u128 = 0;
    proof {
        assert(s@.take(0) =~= Seq::<char>::empty());
    }
    while k < s.len() && n + utf8_width_exec(s[k]) as u128 <= max as u128
        invariant
            k <= s@.len(),
            n == byte_len(s@.take(k as int)),
            n <= max,
            n <= 4 * k,
        decreases s@.len() - k,
    {
        proof {
            lemma_byte_len_take(s@, k as int);
        }
        n = n + utf8_width_exec(s[k]) as u128;
        k = k + 1;
    }
    proof {
        if k < s@.len() {
            lemma_byte_len_take(s@, k as int);
        }
        lemma_prefix_within(s@, max as nat, k as int);
    }
    crate::text::slice_chars(s, 0, k)
}

/// What a preview keeps of a text is a prefix of it that fits in `max` bytes; the whole
/// text when it fits.
pub proof fn law_preview_keeps_fitting_prefix(s: Seq<char>, max: nat)
    ensures
        byte_len(prefix_within(s, max)) <= max,
        prefix_within(s, max).len() <= s.len(),
        prefix_within(s, max) == s.take(prefix_within(s, max).len() as int),
        byte_len(s) <= max ==> prefix_within(s, max) == s,
    decreases s.len(),
{
    if byte_len(s) <= max {
        assert(s.take(s.len() as int) =~= s);
    } else {
        law_preview_keeps_fitting_prefix(s.drop_last(), max);
        let p = prefix_within(s.drop_last(), max);
        assert(s.drop_last().take(p.len() as int) =~= s.take(p.len() as int));
    }
}

/// A prefix that fits is no longer than the text.
pub proof fn lemma_prefix_within_shorter(s: Seq<char>, max: nat)
    ensures
        byte_len(prefix_within(s, max)) <= byte_len(s),
    decreases s.len(),
{
    if byte_len(s) > max {
        lemma_prefix_within_shorter(s.drop_last(), max);
    }
}

/// Preview of a response body: the body when it fits in `max` bytes, else a prefix cut at
/// a character boundary and the number of bytes left out.
pub fn summarize_body_preview(body: &str, max: usize) -> (r: String)
    ensures
        r@ == spec_summarize(body@, max as nat),
{
    let cs = chars_of(body);
    let total = byte_len_of(&cs);
    if total <= max as u128 {
        return body.to_owned();
    }
    let v0 = prefix_within_exec(&cs, max);
    let n = byte_len_of(&v0);
    proof {
        lemma_prefix_within_shorter(cs@, max as nat);
    }
    let mut v = v0;
    push_str(&mut v, " … (+");
    push_decimal(&mut v, total - n);
    push_str(&mut v, " bytes)");
    string_of(&v)
}

/// The advisory appended for Cloudflare error 1003.
pub open spec fn cf_1003_hint() -> Seq<char> {
    "\n  Hint (ops): Cloudflare 1003 means the Worker hit Management without a hostname Cloudflare accepts (often MANAGEMENT_ENDPOINT is an IP literal). Use https://mgt.authdog.com/graphql on authdog-api-prod-v2—or remove a conflicting Workers secret overriding wrangler.toml."@
}

/// Appends [`cf_1003_hint`] when the message mentions `error code: 1003`.
pub open spec fn spec_with_cf_hint(m: Seq<char>) -> Seq<char> {
    if contains_seq(m, "error code: 1003"@) {
        m + cf_1003_hint()
    } else {
        m
    }
}

/// Appends the Cloudflare 1003 operations hint when the message mentions that error.
pub fn append_cf_1003_ops_hint(message: Vec<char>) -> (r: Vec<char>)
    ensures
        r@ == spec_with_cf_hint(message@),
{
    let pat = chars_of("error code: 1003");
    let mut m = message;
    if contains(&m, &pat) {
        push_str(&mut m, "\n  Hint (ops): Cloudflare 1003 means the Worker hit Management without a hostname Cloudflare accepts (often MANAGEMENT_ENDPOINT is an IP literal). Use https://mgt.authdog.com/graphql on authdog-api-prod-v2—or remove a conflicting Workers secret overriding wrangler.toml.");
    }
    m
}

/// A string member that is present and not empty.
pub open spec fn nonempty_member(j: Json, key: Seq<char>) -> Option<Seq<char>> {
    match j.str_member(key) {
        Some(s) => if s.len() > 0 {
            Some(s)
        } else {
            None
        },
        None => None,
    }
}

/// Error preview of a failed REST call: status, then `error` and `detail` from a JSON body
/// (or a summary of the body), then the Cloudflare hint when it applies.
pub open spec fn spec_error_preview(status: u16, body: Seq<char>) -> Seq<char> {
    let st = spec_status_display(status);
    let summary = st + " — "@ + spec_summarize(body, 520);
    let base = match spec_json_parse(encode_utf8(body)) {
        Some(v) => match (nonempty_member(v, "error"@), nonempty_member(v, "detail"@)) {
            (Some(e), Some(d)) => st + " — "@ + e + ": "@ + d,
            (Some(e), None) => st + " — "@ + e,
            (None, Some(d)) => st + " — "@ + d,
            (None, None) => summary,
        },
        None => summary,
    };
    spec_with_cf_hint(base)
}

fn nonempty_member_exec<'a>(j: &'a Json, key: &str) -> (r: Option<&'a String>)
    ensures
        match nonempty_member(*j, key@) {
            Some(s) => r matches Some(x) && x@ == s,
            None => r is None,
        },
{
    match j.get_str(key) {
        Some(s) => if s.as_str().is_empty() {
            None
        } else {
            Some(s)
        },
        None => None,
    }
}

/// Error preview shared by the tenants, organisations and projects listings.
pub fn error_body_preview(status: u16, body: &str) -> (r: String)
    requires
        100 <= status <= 999,
    ensures
        r@ == spec_error_preview(status, body@),
{
    let st = status_display(status);
    let mut v: Vec<char> = Vec::new();
    push_chars(&mut v, &st);
    push_str(&mut v, " — ");
    let parsed = parse_json_str(body);
    let mut summary_needed = true;
    match &parsed {
        Some(j) => {
            let e = nonempty_member_exec(j, "error");
            let d = nonempty_member_exec(j, "detail");
            match (e, d) {
                (Some(e), Some(d)) => {
                    push_str(&mut v, e.as_str());
                    push_str(&mut v, ": ");
                    push_str(&mut v, d.as_str());
                    summary_needed = false;
                },
                (Some(e), None) => {
                    push_str(&mut v, e.as_str());
                    summary_needed = false;
                },
                (None, Some(d)) => {
                    push_str(&mut v, d.as_str());
                    summary_needed = false;
                },
                (None, None) => {},
            }
        },
        None => {},
    }
    if summary_needed {
        let s = summarize_body_preview(body, 520);
        push_str(&mut v, s.as_str());
    }
    proof {
        let stv = spec_status_display(status);
        match spec_json_parse(encode_utf8(body@)) {
            Some(j) => {
                assert(parsed == Some(j));
            },
            None => {},
        }
        assert(body.spec_bytes() == encode_utf8(body@));
    }
    let r = append_cf_1003_ops_hint(v);
    string_of(&r)
}

// ---------------------------------------------------------------------------
// Reading a response
// ---------------------------------------------------------------------------

/// Which listing a response belongs to (for messages).
#[derive(Clone, Copy, Debug, PartialEq, Eq, Structural)]
pub enum ApiResource {
    Tenants,
    Organizations,
    Projects,
    Userinfo,
}

/// The lower-case name used in messages.
pub open spec fn resource_name(r: ApiResource) -> Seq<char> {
    match r {
        ApiResource::Tenants => "tenants"@,
        ApiResource::Organizations => "organizations"@,
        ApiResource::Projects => "projects"@,
        ApiResource::Userinfo => "userinfo"@,
    }
}

/// The lower-case name used in messages.
pub fn resource_label(r: ApiResource) -> (s: &'static str)
    ensures
        s@ == resource_name(r),
{
    match r {
        ApiResource::Tenants => "tenants",
        ApiResource::Organizations => "organizations",
        ApiResource::Projects => "projects",
        ApiResource::Userinfo => "userinfo",
    }
}

/// Message of a response whose status is not a success.
pub open spec fn spec_status_failure(res: ApiResource, status: u16, body: Seq<char>) -> Seq<char> {
    match res {
        ApiResource::Userinfo => "userinfo "@ + spec_status_display(status) + " — "@ + spec_summarize(
            body,
            520,
        ),
        _ => spec_error_preview(status, body),
    }
}

/// How a REST response is read: a success status and a JSON body give the document;
/// otherwise the message that the command shows.
pub open spec fn spec_read_response(res: ApiResource, status: u16, body: Seq<char>) -> Result<
    Json,
    Seq<char>,
> {
    if !(200 <= status <= 299) {
        Err(spec_status_failure(res, status, body))
    } else {
        match spec_json_read(encode_utf8(body)) {
            Ok(j) => Ok(j),
            Err(e) => Err(resource_name(res) + " response is not valid JSON: "@ + e),
        }
    }
}

/// Reads a REST response of `res` (status and body text).
pub fn read_response(res: ApiResource, status: u16, body: &str) -> (r: Result<Json, String>)
    requires
        100 <= status <= 999,
    ensures
        match r {
            Ok(j) => spec_read_response(res, status, body@) == Ok::<Json, Seq<char>>(j),
            Err(m) => spec_read_response(res, status, body@) == Err::<Json, Seq<char>>(m@),
        },
{
    if !(200 <= status && status <= 299) {
        let msg = match res {
            ApiResource::Userinfo => {
                let mut v: Vec<char> = Vec::new();
                push_str(&mut v, "userinfo ");
                let st = status_display(status);
                push_chars(&mut v, &st);
                push_str(&mut v, " — ");
                let s = summarize_body_preview(body, 520);
                push_str(&mut v, s.as_str());
                string_of(&v)
            },
            _ => error_body_preview(status, body),
        };
        return Err(msg);
    }
    match read_json_bytes(body.as_bytes()) {
        Ok(j) => Ok(j),
        Err(e) => {
            let mut v: Vec<char> = Vec::new();
            push_str(&mut v, resource_label(res));
            push_str(&mut v, " response is not valid JSON: ");
            push_str(&mut v, e.as_str());
            Err(string_of(&v))
        },
    }
}

// ---------------------------------------------------------------------------
// Reports
// ---------------------------------------------------------------------------

/// `── {title} ({endpoint}) ──`.
pub open spec fn banner(title: Seq<char>, endpoint: Seq<char>) -> Seq<char> {
    "── "@ + title + " ("@ + endpoint + ") ──"@
}

/// Report text for a listing: banner and pretty JSON, or banner and the error, then the
/// credentials note after a blank line.
pub open spec fn spec_report(
    title: Seq<char>,
    endpoint: Seq<char>,
    outcome: Result<Json, Seq<char>>,
    note: Option<Seq<char>>,
) -> Seq<char> {
    let body = match outcome {
        Ok(j) => banner(title, endpoint) + "\n"@ + spec_json_pretty(j),
        Err(e) => banner(title, endpoint) + "\n  (could not load) "@ + e,
    };
    match note {
        Some(n) => body + "\n\n"@ + n,
        None => body,
    }
}

/// A report with a credentials note is the report without it, then a blank line and the
/// note, whether the request succeeded or failed; and every report starts with its banner.
pub proof fn law_report_note_is_appended(
    title: Seq<char>,
    endpoint: Seq<char>,
    outcome: Result<Json, Seq<char>>,
    n: Seq<char>,
)
    ensures
        spec_report(title, endpoint, outcome, Some(n)) == spec_report(title, endpoint, outcome, None) + "\n\n"@ + n,
        spec_report(title, endpoint, outcome, None).subrange(0, banner(title, endpoint).len() as int)
            == banner(title, endpoint),
{
    let b = banner(title, endpoint);
    let r = spec_report(title, endpoint, outcome, None);
    match outcome {
        Ok(j) => assert(r.subrange(0, b.len() as int) =~= b),
        Err(e) => assert(r.subrange(0, b.len() as int) =~= b),
    }
}

/// The view of a fetch outcome.
pub open spec fn outcome_view(o: Result<Json, String>) -> Result<Json, Seq<char>> {
    match o {
        Ok(j) => Ok(j),
        Err(e) => Err(e@),
    }
}

/// Builds a listing report.
pub fn compose_report(
    title: &str,
    endpoint: &str,
    outcome: &Result<Json, String>,
    credentials_file_note: Option<String>,
) -> (r: String)
    ensures
        r@ == spec_report(title@, endpoint@, outcome_view(*outcome), opt_view(credentials_file_note)),
{
    let mut v: Vec<char> = Vec::new();
    push_str(&mut v, "── ");
    push_str(&mut v, title);
    push_str(&mut v, " (");
    push_str(&mut v, endpoint);
    push_str(&mut v, ") ──");
    match outcome {
        Ok(j) => {
            push_str(&mut v, "\n");
            let p = json_pretty(j);
            push_str(&mut v, p.as_str());
        },
        Err(e) => {
            push_str(&mut v, "\n  (could not load) ");
            push_str(&mut v, e.as_str());
        },
    }
    match &credentials_file_note {
        Some(n) => {
            push_str(&mut v, "\n\n");
            push_str(&mut v, n.as_str());
        },
        None => {},
    }
    proof {
        assert(v@ =~= spec_report(title@, endpoint@, outcome_view(*outcome), opt_view(credentials_file_note)));
    }
    string_of(&v)
}

/// API origin without trailing `/`, followed by `path`.
pub open spec fn endpoint_url(origin: Seq<char>, path: Seq<char>) -> Seq<char> {
    trim_end_char_seq(origin, '/') + path
}

/// `{origin}{path}` with trailing `/` removed from the origin.
pub fn endpoint(origin: &str, path: &str) -> (r: String)
    ensures
        r@ == endpoint_url(origin@, path@),
{
    let o = chars_of(origin);
    let mut t = trim_end_char(&o, '/');
    push_str(&mut t, path);
    string_of(&t)
}

} // verus!
