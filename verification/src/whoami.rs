//! `/whoami`: the identity endpoint, JWT payload decoding (the signature is not verified:
//! the claims are for reference only) and the claims preview.

use vstd::prelude::*;

use crate::api::{byte_len, endpoint, endpoint_url, prefix_within};
use crate::json::{
    entries_get, entries_has, entries_lookup, json_compact, json_pretty, read_json_bytes,
    spec_json_compact, spec_json_pretty, spec_json_read, Json,
};
use crate::seqs::{isort, keep, lemma_isort_contains, lemma_keep_contains, lemma_keep_sub};
use crate::text::{
    chars_of, decimal, int_decimal, join_seq, opt_view, pad_right, push_chars, push_decimal,
    push_int_decimal, push_padded, push_str, sort_strings, str_eq, str_gt, string_of, strs_view,
};
use crate::tui_output::{lines_of, spec_lines};
use base64::Engine;

verus! {

/// Default REST API origin.
pub const DEFAULT_API_ORIGIN: &'static str = "https://api.authdog.com";

/// Path of the identity record under the API origin.
pub const USERINFO_PATH: &'static str = "/v1/userinfo";

/// `GET …/v1/userinfo` as shown in the CLI (origin without trailing `/`, then the path).
pub fn userinfo_endpoint_display(api_origin: &str) -> (r: String)
    ensures
        r@ == endpoint_url(api_origin@, "/v1/userinfo"@),
{
    endpoint(api_origin, USERINFO_PATH)
}

// ---------------------------------------------------------------------------
// Decoding
// ---------------------------------------------------------------------------

/// Splitting the rest `s` at `c`, with the piece `cur` begun and the pieces `acc` done.
pub open spec fn split_on(s: Seq<char>, c: char, cur: Seq<char>, acc: Seq<Seq<char>>) -> Seq<Seq<char>>
    decreases s.len(),
{
    if s.len() == 0 {
        acc.push(cur)
    } else if s[0] == c {
        split_on(s.drop_first(), c, Seq::empty(), acc.push(cur))
    } else {
        split_on(s.drop_first(), c, cur.push(s[0]), acc)
    }
}

/// `str::split(c)`: the pieces between occurrences of `c` (empty pieces included).
pub open spec fn spec_split(s: Seq<char>, c: char) -> Seq<Seq<char>> {
    split_on(s, c, Seq::empty(), Seq::empty())
}

/// `str::split(c)`, collected.
pub fn split_char(s: &[char], c: char) -> (r: Vec<Vec<char>>)
    ensures
        crate::text::vecs_view(r@) == spec_split(s@, c),
{
    let mut acc: Vec<Vec<char>> = Vec::new();
    let mut cur: Vec<char> = Vec::new();
    let mut i: usize = 0;
    proof {
        assert(s@.skip(0) =~= s@);
        assert(crate::text::vecs_view(acc@) =~= Seq::<Seq<char>>::empty());
    }
    while i < s.len()
        invariant
            i <= s@.len(),
            spec_split(s@, c) == split_on(s@.skip(i as int), c, cur@, crate::text::vecs_view(acc@)),
        decreases s@.len() - i,
    {
        proof {
            assert(s@.skip(i as int).drop_first() =~= s@.skip(i + 1));
            assert(s@.skip(i as int)[0] == s@[i as int]);
        }
        if s[i] == c {
            let done = cur;
            cur = Vec::new();
            let ghost before = acc@;
            acc.push(done);
            proof {
                assert(crate::text::vecs_view(acc@) =~= crate::text::vecs_view(before).push(done@));
                assert(cur@ =~= Seq::<char>::empty());
            }
        } else {
            cur.push(s[i]);
        }
        i = i + 1;
    }
    let ghost before = acc@;
    acc.push(cur);
    proof {
        assert(crate::text::vecs_view(acc@) =~= crate::text::vecs_view(before).push(cur@));
        assert(s@.skip(s@.len() as int) =~= Seq::<char>::empty());
    }
    acc
}

/// What `base64::engine::general_purpose::URL_SAFE_NO_PAD.decode` gives for the text: the
/// bytes, or the text of the error it reports.
pub uninterp spec fn spec_b64url_read(s: Seq<char>) -> Result<Seq<u8>, Seq<char>>;

/// Calls `URL_SAFE_NO_PAD.decode` of the `base64` crate; the bytes, or the error's text
/// (`DecodeError`'s `Display`), are named [`spec_b64url_read`].
#[verifier::external_body]
fn b64url_decode(s: &str) -> (r: Result<Vec<u8>, String>)
    ensures
        match r {
            Ok(v) => spec_b64url_read(s@) == Ok::<Seq<u8>, Seq<char>>(v@),
            Err(e) => spec_b64url_read(s@) == Err::<Seq<u8>, Seq<char>>(e@),
        },
{
    base64::engine::general_purpose::URL_SAFE_NO_PAD.decode(s).map_err(|e| e.to_string())
}

/// Which step of reading a token's payload failed.
#[derive(Clone, Copy, Debug, PartialEq, Eq, Structural)]
pub enum JwtError {
    /// Not three dot-separated parts.
    NotJwt,
    /// The payload is not base64url without padding.
    Base64,
    /// The decoded payload is not JSON.
    Json,
}

impl JwtError {
    /// What the step reports.
    pub open spec fn spec_message(self) -> Seq<char> {
        match self {
            JwtError::NotJwt => "not a JWT (expected header.payload.signature)"@,
            JwtError::Base64 => "could not decode JWT payload (base64url)"@,
            JwtError::Json => "JWT payload is not valid JSON"@,
        }
    }

    /// What the step reports.
    pub fn message(&self) -> (r: &'static str)
        ensures
            r@ == self.spec_message(),
    {
        match self {
            JwtError::NotJwt => "not a JWT (expected header.payload.signature)",
            JwtError::Base64 => "could not decode JWT payload (base64url)",
            JwtError::Json => "JWT payload is not valid JSON",
        }
    }
}

/// Why a token's payload could not be read: the failed step, and the decoder's own
/// explanation (empty when the token is not three parts).
#[derive(Clone, Debug, PartialEq, Eq)]
pub struct JwtDecodeError {
    pub kind: JwtError,
    pub detail: String,
}

/// The full explanation: the step's message, then `: ` and the decoder's explanation when
/// there is one.
pub open spec fn spec_jwt_error_text(kind: JwtError, detail: Seq<char>) -> Seq<char> {
    match kind {
        JwtError::NotJwt => kind.spec_message(),
        _ => kind.spec_message() + ": "@ + detail,
    }
}

impl JwtDecodeError {
    /// The full explanation of the failure.
    pub fn message(&self) -> (r: String)
        ensures
            r@ == spec_jwt_error_text(self.kind, self.detail@),
    {
        let mut v = chars_of(self.kind.message());
        match self.kind {
            JwtError::NotJwt => {},
            _ => {
                push_str(&mut v, ": ");
                push_str(&mut v, self.detail.as_str());
            },
        }
        string_of(&v)
    }
}

/// The payload of a JWT: the middle of three `.`-separated parts, base64url-decoded, as
/// JSON. The signature is not checked.
pub open spec fn spec_decode_claims(token: Seq<char>) -> Result<Json, (JwtError, Seq<char>)> {
    let parts = spec_split(token, '.');
    if parts.len() != 3 {
        Err((JwtError::NotJwt, Seq::empty()))
    } else {
        match spec_b64url_read(parts[1]) {
            Err(e) => Err((JwtError::Base64, e)),
            Ok(bytes) => match spec_json_read(bytes) {
                Err(e) => Err((JwtError::Json, e)),
                Ok(j) => Ok(j),
            },
        }
    }
}

/// A decoding failure as plain values.
pub open spec fn jwt_error_view(e: JwtDecodeError) -> (JwtError, Seq<char>) {
    (e.kind, e.detail@)
}

/// Parses the JWT payload (middle segment, base64url). Does not verify the signature.
pub fn decode_jwt_claims(access_token: &str) -> (r: Result<Json, JwtDecodeError>)
    ensures
        match r {
            Ok(j) => spec_decode_claims(access_token@) == Ok::<Json, (JwtError, Seq<char>)>(j),
            Err(e) => spec_decode_claims(access_token@) == Err::<Json, (JwtError, Seq<char>)>(
                jwt_error_view(e),
            ),
        },
{
    let cs = chars_of(access_token);
    let parts = split_char(&cs, '.');
    if parts.len() != 3 {
        let e = JwtDecodeError { kind: JwtError::NotJwt, detail: String::new() };
        proof {
            assert(e.detail@ =~= Seq::<char>::empty());
        }
        return Err(e);
    }
    proof {
        assert(crate::text::vecs_view(parts@)[1] == parts@[1]@);
    }
    let mid = string_of(&parts[1]);
    let bytes = match b64url_decode(mid.as_str()) {
        Ok(b) => b,
        Err(detail) => return Err(JwtDecodeError { kind: JwtError::Base64, detail }),
    };
    match read_json_bytes(&bytes) {
        Ok(j) => Ok(j),
        Err(detail) => Err(JwtDecodeError { kind: JwtError::Json, detail }),
    }
}

// ---------------------------------------------------------------------------
// Values
// ---------------------------------------------------------------------------

/// What `DateTime::<Utc>::from_timestamp(secs, 0)` formatted with `to_rfc3339_opts(Secs,
/// true)` gives; `None` when the timestamp is out of range.
pub uninterp spec fn spec_rfc3339(secs: i64) -> Option<Seq<char>>;

/// Calls `chrono::DateTime::<Utc>::from_timestamp(secs, 0)` and `to_rfc3339_opts(Secs,
/// true)`; the text is named [`spec_rfc3339`].
#[verifier::external_body]
fn rfc3339(secs: i64) -> (r: Option<String>)
    ensures
        opt_view(r) == spec_rfc3339(secs),
{
    chrono::DateTime::<chrono::Utc>::from_timestamp(secs, 0).map(
        |dt| dt.to_rfc3339_opts(chrono::SecondsFormat::Secs, true),
    )
}

/// A timestamp as RFC 3339 (UTC, seconds, `Z`), or `{secs} (invalid timestamp)`.
pub open spec fn spec_format_ts(secs: i64) -> Seq<char> {
    match spec_rfc3339(secs) {
        Some(s) => s,
        None => int_decimal(secs as int) + " (invalid timestamp)"@,
    }
}

fn format_ts_secs(secs: i64) -> (r: Vec<char>)
    ensures
        r@ == spec_format_ts(secs),
{
    match rfc3339(secs) {
        Some(s) => chars_of(s.as_str()),
        None => {
            let mut v: Vec<char> = Vec::new();
            push_int_decimal(&mut v, secs);
            push_str(&mut v, " (invalid timestamp)");
            v
        },
    }
}

/// `value.to_string()` cut to `max` bytes (at a character boundary) with `… (+N chars)`
/// (N counted in bytes) when longer.
pub open spec fn spec_truncated(v: Json, max: nat) -> Seq<char> {
    let s = spec_json_compact(v);
    if byte_len(s) <= max {
        s
    } else {
        let p = prefix_within(s, max);
        p + "… (+"@ + decimal((byte_len(s) - byte_len(p)) as nat) + " chars)"@
    }
}

pub(crate) fn summarize_value_truncated(v: &Json, max: usize) -> (r: Vec<char>)
    ensures
        r@ == spec_truncated(*v, max as nat),
{
    let s = json_compact(v);
    let cs = chars_of(s.as_str());
    let total = crate::api::byte_len_of(&cs);
    if total <= max as u128 {
        return cs;
    }
    let mut p = crate::api::prefix_within_exec(&cs, max);
    let n = crate::api::byte_len_of(&p);
    proof {
        crate::api::lemma_prefix_within_shorter(cs@, max as nat);
    }
    push_str(&mut p, "… (+");
    push_decimal(&mut p, total - n);
    push_str(&mut p, " chars)");
    p
}

// ---------------------------------------------------------------------------
// Claims
// ---------------------------------------------------------------------------

/// Claims shown first, in this order.
pub open spec fn preferred_claims() -> Seq<Seq<char>> {
    seq!["sub"@, "externalid"@, "env"@, "iss"@, "aud"@, "egat"@, "iat"@, "exp"@]
}

/// Claims never shown (embedded session identifiers).
pub open spec fn skipped_claims() -> Seq<Seq<char>> {
    seq!["sid"@]
}

fn preferred_claim_keys() -> (r: Vec<&'static str>)
    ensures
        r@.len() == preferred_claims().len(),
        forall|i: int| 0 <= i < r@.len() ==> (#[trigger] r@[i])@ == preferred_claims()[i],
{
    vec!["sub", "externalid", "env", "iss", "aud", "egat", "iat", "exp"]
}

fn is_preferred_claim(k: &str) -> (b: bool)
    ensures
        b == preferred_claims().contains(k@),
{
    let ks = preferred_claim_keys();
    let mut i: usize = 0;
    while i < ks.len()
        invariant
            i <= ks@.len() == preferred_claims().len(),
            forall|j: int| 0 <= j < ks@.len() ==> (#[trigger] ks@[j])@ == preferred_claims()[j],
            forall|j: int| 0 <= j < i ==> preferred_claims()[j] != k@,
        decreases ks@.len() - i,
    {
        if str_eq(ks[i], k) {
            proof {
                assert(preferred_claims()[i as int] == k@);
            }
            return true;
        }
        i = i + 1;
    }
    false
}

fn is_skipped_claim(k: &str) -> (b: bool)
    ensures
        b == skipped_claims().contains(k@),
{
    let b = str_eq(k, "sid");
    proof {
        if b {
            assert(skipped_claims()[0] == k@);
        }
    }
    b
}

/// The keys of an object's entries, in order.
pub open spec fn keys_of(es: Seq<(String, Json)>) -> Seq<Seq<char>> {
    es.map_values(|e: (String, Json)| e.0@)
}

pub(crate) fn object_keys(es: &Vec<(String, Json)>) -> (r: Vec<String>)
    ensures
        strs_view(r@) == keys_of(es@),
{
    let mut out: Vec<String> = Vec::new();
    let mut i: usize = 0;
    while i < es.len()
        invariant
            i <= es@.len(),
            strs_view(out@) == keys_of(es@.take(i as int)),
        decreases es@.len() - i,
    {
        let k = es[i].0.clone();
        let ghost before = out@;
        out.push(k);
        proof {
            assert(strs_view(out@) =~= strs_view(before).push(k@));
            assert(keys_of(es@.take(i + 1)) =~= keys_of(es@.take(i as int)).push(es@[i as int].0@));
        }
        i = i + 1;
    }
    proof {
        assert(es@.take(es@.len() as int) =~= es@);
    }
    out
}

/// The member `key` of the entries, `null` when absent (`map.get(k).unwrap_or(&Null)`).
pub open spec fn member_or_null(es: Seq<(String, Json)>, key: Seq<char>) -> Json {
    match entries_get(es, key) {
        Some(v) => v,
        None => Json::Null,
    }
}

/// Strings, booleans, numbers and `null`.
pub open spec fn is_scalar(v: Json) -> bool {
    !(v is Array || v is Object)
}

/// A number as whole seconds: `as_i64`, else `as_u64` cast to `i64`.
pub open spec fn ts_secs(v: Json) -> Option<i64> {
    match v {
        Json::Number(n) => match n.spec_as_i64() {
            Some(i) => Some(i),
            None => match n.spec_as_u64() {
                Some(u) => Some(u as i64),
                None => None,
            },
        },
        _ => None,
    }
}

fn ts_secs_exec(v: &Json) -> (r: Option<i64>)
    ensures
        r == ts_secs(*v),
{
    match v {
        Json::Number(n) => match n.get_i64() {
            Some(i) => Some(i),
            None => match n.get_u64() {
                Some(u) => Some(u as i64),
                None => None,
            },
        },
        _ => None,
    }
}

/// How a claim value is summarised: strings as themselves, `true`/`false`, the number's
/// text, `null`; arrays and objects as compact JSON cut to 120 bytes.
pub open spec fn spec_summary(v: Json) -> Seq<char> {
    match v {
        Json::Str(s) => s@,
        Json::Bool(b) => if b { "true"@ } else { "false"@ },
        Json::Number(n) => n.spec_text(),
        Json::Null => "null"@,
        _ => spec_truncated(v, 120),
    }
}

fn summarize_value(v: &Json) -> (r: Vec<char>)
    ensures
        r@ == spec_summary(*v),
{
    match v {
        Json::Str(s) => chars_of(s.as_str()),
        Json::Bool(b) => if *b { chars_of("true") } else { chars_of("false") },
        Json::Number(n) => chars_of(n.text().as_str()),
        Json::Null => chars_of("null"),
        _ => summarize_value_truncated(v, 120),
    }
}

/// A scalar claim's value: `exp`/`iat` numbers as RFC 3339 times (`exp` marked
/// ` (expired)` when not after `now`), anything else summarised.
pub open spec fn scalar_claim_value(key: Seq<char>, v: Json, now: i64) -> Seq<char> {
    if (key == "exp"@ || key == "iat"@) && ts_secs(v) is Some {
        let secs = ts_secs(v)->0;
        spec_format_ts(secs) + if key == "exp"@ && secs <= now {
            " (expired)"@
        } else {
            Seq::empty()
        }
    } else {
        spec_summary(v)
    }
}

fn scalar_claim_value_exec(key: &str, v: &Json, now: i64) -> (r: Vec<char>)
    ensures
        r@ == scalar_claim_value(key@, *v, now),
{
    let is_exp = str_eq(key, "exp");
    let is_iat = str_eq(key, "iat");
    if is_exp || is_iat {
        if let Some(secs) = ts_secs_exec(v) {
            let mut out = format_ts_secs(secs);
            if is_exp && secs <= now {
                push_str(&mut out, " (expired)");
            }
            proof {
                assert(out@ =~= scalar_claim_value(key@, *v, now));
            }
            return out;
        }
    }
    summarize_value(v)
}

/// `{indent}{key:}` padded to `w` characters, then the value.
pub open spec fn claim_kv(indent: Seq<char>, w: nat, key: Seq<char>, val: Seq<char>) -> Seq<char> {
    indent + pad_right(key + ":"@, w) + val
}

fn claim_kv_exec(indent: &str, w: usize, key: &str, val: &[char]) -> (r: Vec<char>)
    ensures
        r@ == claim_kv(indent@, w as nat, key@, val@),
{
    let mut out = chars_of(indent);
    let mut k = chars_of(key);
    push_str(&mut k, ":");
    push_padded(&mut out, &k, w);
    push_chars(&mut out, val);
    out
}

/// The widest `key:` among the keys, in bytes (0 for none).
pub open spec fn key_width_max(ks: Seq<Seq<char>>) -> nat
    decreases ks.len(),
{
    if ks.len() == 0 {
        0
    } else {
        let a = key_width_max(ks.drop_last());
        let b = byte_len(ks.last()) + 1;
        if a < b { b } else { a }
    }
}

/// `x` held within `lo..=hi`.
pub open spec fn clamp_nat(x: nat, lo: nat, hi: nat) -> nat {
    if x < lo {
        lo
    } else if x > hi {
        hi
    } else {
        x
    }
}

/// Column width of the claim preview: the widest `key:`, held within 11..=34.
pub open spec fn claim_width(pref: Seq<Seq<char>>, others: Seq<Seq<char>>) -> nat {
    let a = key_width_max(pref);
    let b = key_width_max(others);
    clamp_nat(if a < b { b } else { a }, 11, 34)
}

fn key_width_max_exec(ks: &Vec<String>) -> (r: u128)
    ensures
        r == key_width_max(strs_view(ks@)),
{
    let mut m: u128 = 0;
    let mut i: usize = 0;
    while i < ks.len()
        invariant
            i <= ks@.len(),
            m == key_width_max(strs_view(ks@).take(i as int)),
        decreases ks@.len() - i,
    {
        let kc = chars_of(ks[i].as_str());
        let b = crate::api::byte_len_of(&kc);
        proof {
            assert(strs_view(ks@).take(i + 1).drop_last() =~= strs_view(ks@).take(i as int));
            assert(strs_view(ks@).take(i + 1).last() == kc@);
            crate::api::lemma_byte_len_bound(kc@);
            assert(kc@.len() == kc.len());
        }
        if m < b + 1 {
            m = b + 1;
        }
        i = i + 1;
    }
    proof {
        assert(strs_view(ks@).take(ks@.len() as int) =~= strs_view(ks@));
    }
    m
}

fn is_scalar_exec(v: &Json) -> (b: bool)
    ensures
        b == is_scalar(*v),
{
    match v {
        Json::Array(_) | Json::Object(_) => false,
        _ => true,
    }
}

/// The line of a preferred claim.
pub open spec fn pref_claim_line(es: Seq<(String, Json)>, key: Seq<char>, w: nat, now: i64) -> Seq<char> {
    let v = member_or_null(es, key);
    claim_kv(
        "  "@,
        w,
        key,
        if is_scalar(v) {
            scalar_claim_value(key, v, now)
        } else {
            spec_truncated(v, 160)
        },
    )
}

/// `prefix` put before each line.
pub open spec fn indent_lines(ls: Seq<Seq<char>>, prefix: Seq<char>) -> Seq<Seq<char>> {
    ls.map_values(|l: Seq<char>| prefix + l)
}

/// The lines of one of the other claims: a padded line for a scalar; otherwise the key
/// alone, then the value as indented pretty JSON.
pub open spec fn other_claim_lines(es: Seq<(String, Json)>, key: Seq<char>, w: nat, now: i64) -> Seq<
    Seq<char>,
> {
    let v = member_or_null(es, key);
    if is_scalar(v) {
        seq![claim_kv("    "@, w, key, scalar_claim_value(key, v, now))]
    } else {
        seq!["    "@ + key + ":"@] + indent_lines(spec_lines(spec_json_pretty(v)), "      "@)
    }
}

/// The lines of the other claims, key after key.
pub open spec fn others_block(es: Seq<(String, Json)>, ks: Seq<Seq<char>>, w: nat, now: i64) -> Seq<
    Seq<char>,
>
    decreases ks.len(),
{
    if ks.len() == 0 {
        Seq::empty()
    } else {
        others_block(es, ks.drop_last(), w, now) + other_claim_lines(es, ks.last(), w, now)
    }
}

/// Whether a preferred key is shown for these entries.
pub open spec fn shown_preferred(es: Seq<(String, Json)>) -> spec_fn(Seq<char>) -> bool {
    |k: Seq<char>| !skipped_claims().contains(k) && entries_has(es, k)
}

/// Whether a key belongs among the other claims.
pub open spec fn other_claim() -> spec_fn(Seq<char>) -> bool {
    |k: Seq<char>| !preferred_claims().contains(k) && !skipped_claims().contains(k)
}

/// Preferred keys present in the payload, in preferred order.
pub open spec fn present_preferred(es: Seq<(String, Json)>) -> Seq<Seq<char>> {
    keep(preferred_claims(), shown_preferred(es))
}

/// Keys neither preferred nor skipped, sorted.
pub open spec fn other_claim_keys(es: Seq<(String, Json)>) -> Seq<Seq<char>> {
    isort(keep(keys_of(es), other_claim()), str_gt())
}

/// The preview lines of a claims object.
pub open spec fn claim_lines(es: Seq<(String, Json)>, now: i64) -> Seq<Seq<char>> {
    let pref = present_preferred(es);
    let others = other_claim_keys(es);
    let w = claim_width(pref, others);
    pref.map_values(|k: Seq<char>| pref_claim_line(es, k, w, now)) + if others.len() > 0 {
        seq![Seq::<char>::empty(), "  Other claims:"@] + others_block(es, others, w, now)
    } else {
        Seq::empty()
    }
}

/// The claims preview of a JWT payload at time `now` (Unix seconds).
pub open spec fn spec_render_claims(payload: Json, now: i64) -> Seq<char> {
    match payload {
        Json::Object(es) => {
            let lines = claim_lines(es@, now);
            if lines.len() == 0 {
                "(JWT payload empty or only filtered fields)"@
            } else {
                join_seq(lines, "\n"@)
            }
        },
        _ => "(unexpected non-object JWT payload)"@,
    }
}

fn pref_claim_line_exec(es: &Vec<(String, Json)>, key: &str, w: usize, now: i64) -> (r: Vec<char>)
    ensures
        r@ == pref_claim_line(es@, key@, w as nat, now),
{
    let null = Json::Null;
    let v = match entries_lookup(es, key) {
        Some(v) => v,
        None => &null,
    };
    let val = if is_scalar_exec(v) {
        scalar_claim_value_exec(key, v, now)
    } else {
        summarize_value_truncated(v, 160)
    };
    claim_kv_exec("  ", w, key, &val)
}

/// Each line with `prefix` in front.
fn indent_lines_exec(ls: &Vec<Vec<char>>, prefix: &str) -> (r: Vec<Vec<char>>)
    ensures
        crate::text::vecs_view(r@) == indent_lines(crate::text::vecs_view(ls@), prefix@),
{
    let mut out: Vec<Vec<char>> = Vec::new();
    let mut i: usize = 0;
    while i < ls.len()
        invariant
            i <= ls@.len(),
            crate::text::vecs_view(out@) == indent_lines(crate::text::vecs_view(ls@).take(i as int), prefix@),
        decreases ls@.len() - i,
    {
        let mut l = chars_of(prefix);
        push_chars(&mut l, &ls[i]);
        let ghost before = out@;
        out.push(l);
        proof {
            assert(crate::text::vecs_view(out@) =~= crate::text::vecs_view(before).push(l@));
            assert(crate::text::vecs_view(ls@).take(i + 1) =~= crate::text::vecs_view(ls@).take(i as int).push(ls@[i as int]@));
            assert(indent_lines(crate::text::vecs_view(ls@).take(i + 1), prefix@) =~= indent_lines(crate::text::vecs_view(ls@).take(i as int), prefix@).push(l@));
        }
        i = i + 1;
    }
    proof {
        assert(crate::text::vecs_view(ls@).take(ls@.len() as int) =~= crate::text::vecs_view(ls@));
    }
    out
}

fn other_claim_lines_exec(es: &Vec<(String, Json)>, key: &str, w: usize, now: i64) -> (r: Vec<
    Vec<char>,
>)
    ensures
        crate::text::vecs_view(r@) == other_claim_lines(es@, key@, w as nat, now),
{
    let null = Json::Null;
    let v = match entries_lookup(es, key) {
        Some(v) => v,
        None => &null,
    };
    if is_scalar_exec(v) {
        let val = scalar_claim_value_exec(key, v, now);
        let line = claim_kv_exec("    ", w, key, &val);
        let mut out: Vec<Vec<char>> = Vec::new();
        out.push(line);
        proof {
            assert(crate::text::vecs_view(out@) =~= seq![line@]);
        }
        out
    } else {
        let mut head = chars_of("    ");
        push_str(&mut head, key);
        push_str(&mut head, ":");
        let pretty = json_pretty(v);
        let pc = chars_of(pretty.as_str());
        let ls = lines_of(&pc);
        let body = indent_lines_exec(&ls, "      ");
        let mut out: Vec<Vec<char>> = Vec::new();
        out.push(head);
        let mut i: usize = 0;
        proof {
            assert(crate::text::vecs_view(out@) =~= seq![head@] + crate::text::vecs_view(body@).take(0));
        }
        while i < body.len()
            invariant
                i <= body@.len(),
                crate::text::vecs_view(out@) == seq![head@] + crate::text::vecs_view(body@).take(i as int),
            decreases body@.len() - i,
        {
            let l = body[i].clone();
            let ghost before = out@;
            out.push(l);
            proof {
                assert(crate::text::vecs_view(out@) =~= crate::text::vecs_view(before).push(l@));
                assert(crate::text::vecs_view(body@).take(i + 1) =~= crate::text::vecs_view(body@).take(i as int).push(body@[i as int]@));
            }
            i = i + 1;
        }
        proof {
            assert(crate::text::vecs_view(body@).take(body@.len() as int) =~= crate::text::vecs_view(body@));
        }
        out
    }
}

fn claim_lines_exec(es: &Vec<(String, Json)>, now: i64) -> (r: Vec<Vec<char>>)
    ensures
        crate::text::vecs_view(r@) == claim_lines(es@, now),
{
    let pk = preferred_claim_keys();
    let mut pref: Vec<String> = Vec::new();
    let mut i: usize = 0;
    while i < pk.len()
        invariant
            i <= pk@.len() == preferred_claims().len(),
            forall|j: int| 0 <= j < pk@.len() ==> (#[trigger] pk@[j])@ == preferred_claims()[j],
            strs_view(pref@) == keep(preferred_claims().take(i as int), shown_preferred(es@)),
        decreases pk@.len() - i,
    {
        let k = pk[i];
        proof {
            assert(preferred_claims().take(i + 1).drop_last() =~= preferred_claims().take(i as int));
            assert(preferred_claims().take(i + 1).last() == k@);
        }
        if !is_skipped_claim(k) && entries_lookup(es, k).is_some() {
            let ks = k.to_owned();
            let ghost before = pref@;
            pref.push(ks);
            proof {
                assert(strs_view(pref@) =~= strs_view(before).push(k@));
            }
        }
        i = i + 1;
    }
    proof {
        assert(preferred_claims().take(pk@.len() as int) =~= preferred_claims());
    }
    let keys = object_keys(es);
    let mut rest: Vec<String> = Vec::new();
    let mut i: usize = 0;
    while i < keys.len()
        invariant
            i <= keys@.len(),
            strs_view(rest@) == keep(strs_view(keys@).take(i as int), other_claim()),
        decreases keys@.len() - i,
    {
        proof {
            assert(strs_view(keys@).take(i + 1).drop_last() =~= strs_view(keys@).take(i as int));
            assert(strs_view(keys@).take(i + 1).last() == keys@[i as int]@);
        }
        if !is_preferred_claim(keys[i].as_str()) && !is_skipped_claim(keys[i].as_str()) {
            let k = keys[i].clone();
            let ghost before = rest@;
            rest.push(k);
            proof {
                assert(strs_view(rest@) =~= strs_view(before).push(k@));
            }
        }
        i = i + 1;
    }
    proof {
        assert(strs_view(keys@).take(keys@.len() as int) =~= strs_view(keys@));
    }
    let others = sort_strings(&rest);
    let wa = key_width_max_exec(&pref);
    let wb = key_width_max_exec(&others);
    let m = if wa < wb { wb } else { wa };
    let w: usize = if m < 11 { 11 } else if m > 34 { 34 } else { m as usize };
    let ghost gw = claim_width(strs_view(pref@), strs_view(others@));
    assert(w == gw);
    let ghost pl = strs_view(pref@).map_values(|k: Seq<char>| pref_claim_line(es@, k, w as nat, now));
    let mut lines: Vec<Vec<char>> = Vec::new();
    let mut i: usize = 0;
    while i < pref.len()
        invariant
            i <= pref@.len(),
            pl == strs_view(pref@).map_values(|k: Seq<char>| pref_claim_line(es@, k, w as nat, now)),
            crate::text::vecs_view(lines@) == pl.take(i as int),
        decreases pref@.len() - i,
    {
        let line = pref_claim_line_exec(es, pref[i].as_str(), w, now);
        let ghost before = lines@;
        lines.push(line);
        proof {
            assert(crate::text::vecs_view(lines@) =~= crate::text::vecs_view(before).push(line@));
            assert(pl.take(i + 1) =~= pl.take(i as int).push(pl[i as int]));
        }
        i = i + 1;
    }
    proof {
        assert(pl.take(pref@.len() as int) =~= pl);
    }
    if others.len() > 0 {
        let ghost before = lines@;
        lines.push(Vec::new());
        lines.push(chars_of("  Other claims:"));
        let ghost head = crate::text::vecs_view(lines@);
        proof {
            assert(head =~= pl + seq![Seq::<char>::empty(), "  Other claims:"@]);
        }
        let mut i: usize = 0;
        while i < others.len()
            invariant
                i <= others@.len(),
                crate::text::vecs_view(lines@) == head + others_block(es@, strs_view(others@).take(i as int), w as nat, now),
            decreases others@.len() - i,
        {
            let more = other_claim_lines_exec(es, others[i].as_str(), w, now);
            let ghost mid = lines@;
            let mut j: usize = 0;
            proof {
                assert(crate::text::vecs_view(more@).take(0) =~= Seq::<Seq<char>>::empty());
                assert(crate::text::vecs_view(mid) =~= crate::text::vecs_view(mid) + crate::text::vecs_view(more@).take(0));
            }
            while j < more.len()
                invariant
                    j <= more@.len(),
                    crate::text::vecs_view(lines@) == crate::text::vecs_view(mid) + crate::text::vecs_view(more@).take(j as int),
                decreases more@.len() - j,
            {
                let l = more[j].clone();
                let ghost b2 = lines@;
                lines.push(l);
                proof {
                    assert(crate::text::vecs_view(lines@) =~= crate::text::vecs_view(b2).push(l@));
                    assert(crate::text::vecs_view(more@).take(j + 1) =~= crate::text::vecs_view(more@).take(j as int).push(more@[j as int]@));
                }
                j = j + 1;
            }
            proof {
                assert(crate::text::vecs_view(more@).take(more@.len() as int) =~= crate::text::vecs_view(more@));
                let t = strs_view(others@).take(i + 1);
                assert(t.drop_last() =~= strs_view(others@).take(i as int));
                assert(t.last() == others@[i as int]@);
            }
            i = i + 1;
        }
        proof {
            assert(strs_view(others@).take(others@.len() as int) =~= strs_view(others@));
        }
    } else {
        proof {
            assert(crate::text::vecs_view(lines@) =~= pl + Seq::<Seq<char>>::empty());
        }
    }
    lines
}

/// The claims preview of a JWT payload at time `now_secs` (Unix seconds): preferred
/// claims first, then the others sorted; `sid` is never shown.
pub fn render_whoami_from_claims_at(payload: &Json, now_secs: i64) -> (r: String)
    ensures
        r@ == spec_render_claims(*payload, now_secs),
{
    match payload {
        Json::Object(es) => {
            let lines = claim_lines_exec(es, now_secs);
            if lines.len() == 0 {
                "(JWT payload empty or only filtered fields)".to_owned()
            } else {
                let t = crate::text::join_chars(&lines, "\n");
                string_of(&t)
            }
        },
        _ => "(unexpected non-object JWT payload)".to_owned(),
    }
}

/// Seconds since the Unix epoch by the system clock: calls
/// `SystemTime::now().duration_since(UNIX_EPOCH)` (`None` when the clock reads before the
/// epoch) and `Duration::as_secs`. Nothing is claimed of the value: it is the time.
#[verifier::external_body]
fn unix_now_secs() -> (r: Option<u64>) {
    std::time::SystemTime::now().duration_since(std::time::UNIX_EPOCH).ok().map(|d| d.as_secs())
}

/// The claims preview of a JWT payload at the current time (see
/// [`render_whoami_from_claims_at`]).
pub fn render_whoami_from_claims(payload: &Json) -> (r: String)
    ensures
        exists|now: i64| r@ == #[trigger] spec_render_claims(*payload, now),
{
    let now: i64 = match unix_now_secs() {
        Some(s) => s as i64,
        None => 0,
    };
    let r = render_whoami_from_claims_at(payload, now);
    assert(r@ == spec_render_claims(*payload, now));
    r
}

/// Decodes the token's payload and renders its claims preview.
pub fn describe_access_token(access_token: &str) -> (r: Result<String, JwtDecodeError>)
    ensures
        match spec_decode_claims(access_token@) {
            Ok(j) => r matches Ok(t) && exists|now: i64| t@ == #[trigger] spec_render_claims(j, now),
            Err(e) => r matches Err(x) && jwt_error_view(x) == e,
        },
{
    match decode_jwt_claims(access_token) {
        Ok(j) => Ok(render_whoami_from_claims(&j)),
        Err(e) => Err(e),
    }
}

// ---------------------------------------------------------------------------
// Laws
// ---------------------------------------------------------------------------

/// A key of the entries is a member that `get` finds.
pub proof fn lemma_key_is_member(es: Seq<(String, Json)>, k: Seq<char>)
    requires
        keys_of(es).contains(k),
    ensures
        entries_has(es, k),
    decreases es.len(),
{
    if es[0].0@ != k {
        let j = choose|j: int| 0 <= j < keys_of(es).len() && keys_of(es)[j] == k;
        assert(j > 0);
        assert(keys_of(es.drop_first())[j - 1] == k);
        lemma_key_is_member(es.drop_first(), k);
    }
}

/// The claims preview never shows `sid`, and shows every other member of the payload:
/// each is a present preferred claim or among the other claims.
pub proof fn law_claims_preview_hides_only_sid(es: Seq<(String, Json)>)
    ensures
        !present_preferred(es).contains("sid"@),
        !other_claim_keys(es).contains("sid"@),
        forall|k: Seq<char>|
            #![trigger keys_of(es).contains(k)]
            keys_of(es).contains(k) && k != "sid"@ ==> present_preferred(es).contains(k)
                || other_claim_keys(es).contains(k),
{
    assert(skipped_claims()[0] == "sid"@);
    lemma_keep_sub(preferred_claims(), shown_preferred(es));
    if present_preferred(es).contains("sid"@) {
        let i = choose|i: int| 0 <= i < present_preferred(es).len() && present_preferred(es)[i] == "sid"@;
        assert(shown_preferred(es)(present_preferred(es)[i]));
    }
    let kept = keep(keys_of(es), other_claim());
    lemma_keep_sub(keys_of(es), other_claim());
    lemma_isort_contains(kept, str_gt(), "sid"@);
    if kept.contains("sid"@) {
        let i = choose|i: int| 0 <= i < kept.len() && kept[i] == "sid"@;
        assert(other_claim()(kept[i]));
    }
    assert forall|k: Seq<char>|
        #![trigger keys_of(es).contains(k)]
        keys_of(es).contains(k) && k != "sid"@ implies present_preferred(es).contains(k)
            || other_claim_keys(es).contains(k) by {
        assert(!skipped_claims().contains(k)) by {
            if skipped_claims().contains(k) {
                let i = choose|i: int| 0 <= i < skipped_claims().len() && skipped_claims()[i] == k;
                assert(i == 0);
            }
        }
        if preferred_claims().contains(k) {
            lemma_key_is_member(es, k);
            lemma_keep_contains(preferred_claims(), shown_preferred(es), k);
        } else {
            lemma_keep_contains(keys_of(es), other_claim(), k);
            lemma_isort_contains(kept, str_gt(), k);
        }
    }
}

/// A member that `get` finds is one of the keys.
pub proof fn lemma_member_is_key(es: Seq<(String, Json)>, k: Seq<char>)
    requires
        entries_has(es, k),
    ensures
        keys_of(es).contains(k),
    decreases es.len(),
{
    if es[0].0@ == k {
        assert(keys_of(es)[0] == k);
    } else {
        lemma_member_is_key(es.drop_first(), k);
        let j = choose|j: int| 0 <= j < keys_of(es.drop_first()).len() && keys_of(es.drop_first())[j] == k;
        assert(keys_of(es)[j + 1] == k);
    }
}

/// The claims preview is empty exactly when every key of the payload is `sid`; the
/// preferred claims come first, in their fixed order, and the other claims follow (after a
/// blank line and a heading) in ascending key order.
pub proof fn law_claims_preview_shape(es: Seq<(String, Json)>, now: i64)
    ensures
        (claim_lines(es, now).len() == 0) <==> (forall|i: int| 0 <= i < es.len() ==> (#[trigger] es[i]).0@ == "sid"@),
        crate::text::ascending(other_claim_keys(es)),
        present_preferred(es) == keep(preferred_claims(), shown_preferred(es)),
        claim_lines(es, now).take(present_preferred(es).len() as int) == present_preferred(es).map_values(
            |k: Seq<char>| pref_claim_line(es, k, claim_width(present_preferred(es), other_claim_keys(es)), now),
        ),
        other_claim_keys(es).len() > 0 ==> claim_lines(es, now).subrange(
            present_preferred(es).len() as int,
            present_preferred(es).len() + 2int,
        ) == seq![Seq::<char>::empty(), "  Other claims:"@],
{
    let pref = present_preferred(es);
    let others = other_claim_keys(es);
    let lines = claim_lines(es, now);
    let kept = keep(keys_of(es), other_claim());
    crate::text::lemma_isort_ascending(kept);
    assert(skipped_claims()[0] == "sid"@);
    law_claims_preview_hides_only_sid(es);
    if forall|i: int| 0 <= i < es.len() ==> (#[trigger] es[i]).0@ == "sid"@ {
        lemma_keep_sub(preferred_claims(), shown_preferred(es));
        if pref.len() > 0 {
            let k = pref[0];
            assert(shown_preferred(es)(k));
            lemma_member_is_key(es, k);
            let j = choose|j: int| 0 <= j < keys_of(es).len() && keys_of(es)[j] == k;
            assert(es[j].0@ == "sid"@);
            assert(skipped_claims().contains(k));
        }
        lemma_keep_sub(keys_of(es), other_claim());
        if others.len() > 0 {
            lemma_isort_contains(kept, str_gt(), others[0]);
            let w = choose|w: int| 0 <= w < kept.len() && kept[w] == others[0];
            assert(other_claim()(kept[w]));
            let j = choose|j: int| 0 <= j < keys_of(es).len() && keys_of(es)[j] == kept[w];
            assert(es[j].0@ == "sid"@);
            assert(skipped_claims().contains(kept[w]));
        }
    } else {
        let i = choose|i: int| 0 <= i < es.len() && (#[trigger] es[i]).0@ != "sid"@;
        assert(keys_of(es)[i] == es[i].0@);
        assert(keys_of(es).contains(es[i].0@));
        if pref.contains(es[i].0@) {
            assert(pref.len() > 0);
        } else {
            assert(others.contains(es[i].0@));
        }
    }
    assert(lines.take(pref.len() as int) =~= pref.map_values(
        |k: Seq<char>| pref_claim_line(es, k, claim_width(pref, others), now),
    ));
    if others.len() > 0 {
        assert(lines.subrange(pref.len() as int, pref.len() + 2int) =~= seq![Seq::<char>::empty(), "  Other claims:"@]);
    }
}

} // verus!
