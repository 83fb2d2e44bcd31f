//! Browser sign-in hosted on Identity: URLs, the loopback `?grant=` callback and the
//! interpretation of poll / redeem responses.

use vstd::prelude::*;
use vstd::string::StringSliceAdditionalSpecFns;
use vstd::utf8::encode_utf8;

use crate::json::{entries_get, spec_json_error, spec_json_parse, Json};
use crate::text::{
    chars_of, opt_view, push_chars, push_decimal, push_str, split_whitespace, split_ws,
    str_eq, string_of, trim_end_char, trim_end_char_seq, decimal, lower_seq,
    lower_chars,
};
use crate::urls::{
    pairs_view, spec_url_parse_display, spec_url_path_and_query, spec_url_with_pairs,
    url_parse_display, url_path_and_query, url_with_pairs,
};

verus! {

/// Browser redirect path the CLI listens on (must stay in sync with the sign-in redirect).
pub const LOOPBACK_OAUTH_REDIRECT_PATH: &'static str = "/oauth/callback";

/// Default Identity host (hosted `/signin` and OAuth bridges).
pub const DEFAULT_IDENTITY_ORIGIN: &'static str = "https://identity.authdog.com";

/// Environment of the production console tenant.
pub const DEFAULT_CONSOLE_ENVIRONMENT_ID: &'static str = "ed89ef1e-2e76-4674-8272-5634064ae293";

/// Identity host and sign-in environment.
#[derive(Clone, Debug, PartialEq, Eq)]
pub struct CliAuthConfig {
    pub identity_origin: String,
    pub environment_id: String,
}

impl CliAuthConfig {
    /// Configuration with trailing `/` removed from the origin.
    pub fn new(identity_origin: &str, environment_id: &str) -> (r: Self)
        ensures
            r.identity_origin@ == trim_end_char_seq(identity_origin@, '/'),
            r.environment_id@ == environment_id@,
    {
        let o = chars_of(identity_origin);
        let t = trim_end_char(&o, '/');
        CliAuthConfig { identity_origin: string_of(&t), environment_id: environment_id.to_owned() }
    }
}

/// `POST` endpoint that redeems a loopback grant.
pub fn cli_redeem_url(cfg: &CliAuthConfig) -> (r: String)
    ensures
        r@ == cfg.identity_origin@ + "/api/v1/cli/oauth/redeem"@,
{
    let mut v: Vec<char> = Vec::new();
    push_str(&mut v, cfg.identity_origin.as_str());
    push_str(&mut v, "/api/v1/cli/oauth/redeem");
    string_of(&v)
}

/// Polling fallback when Identity does not see a `cli_redirect` marker.
pub fn cli_poll_url(cfg: &CliAuthConfig, session_id: &str) -> (r: String)
    ensures
        r@ == cfg.identity_origin@ + "/api/v1/cli/oauth/poll?session="@ + session_id@,
{
    let mut v: Vec<char> = Vec::new();
    push_str(&mut v, cfg.identity_origin.as_str());
    push_str(&mut v, "/api/v1/cli/oauth/poll?session=");
    push_str(&mut v, session_id);
    proof {
        assert(v@ =~= cfg.identity_origin@ + "/api/v1/cli/oauth/poll?session="@ + session_id@);
    }
    string_of(&v)
}

/// Why a sign-in URL could not be built.
#[derive(Clone, Copy, Debug, PartialEq, Eq, Structural)]
pub enum SigninUrlError {
    /// `url` refused the loopback redirect URL.
    RedirectUrl,
    /// `url` refused the Identity sign-in URL.
    SigninUrl,
}

/// `http://127.0.0.1:<port>/oauth/callback`, before `url` normalises it.
pub open spec fn loopback_redirect_text(port: u16) -> Seq<char> {
    "http://127.0.0.1:"@ + decimal(port as nat) + "/oauth/callback"@
}

/// The hosted sign-in URL: `{origin}/signin/{environment}` with `cli_sess` and
/// `cli_redirect` query pairs appended by `url`.
pub open spec fn spec_signin_url(
    origin: Seq<char>,
    env: Seq<char>,
    session: Seq<char>,
    port: u16,
) -> Result<Seq<char>, SigninUrlError> {
    match spec_url_parse_display(loopback_redirect_text(port)) {
        None => Err(SigninUrlError::RedirectUrl),
        Some(redirect) => match spec_url_with_pairs(
            origin + "/signin/"@ + env,
            seq![("cli_sess"@, session), ("cli_redirect"@, redirect)],
        ) {
            None => Err(SigninUrlError::SigninUrl),
            Some(u) => Ok(u),
        },
    }
}

/// Hosted `/signin/...` URL with `cli_redirect` set to the loopback callback on `loopback_port`.
pub fn cli_signin_url(cfg: &CliAuthConfig, session_id: &str, loopback_port: u16) -> (r: Result<
    String,
    SigninUrlError,
>)
    ensures
        match r {
            Ok(s) => spec_signin_url(
                cfg.identity_origin@,
                cfg.environment_id@,
                session_id@,
                loopback_port,
            ) == Ok::<Seq<char>, SigninUrlError>(s@),
            Err(e) => spec_signin_url(
                cfg.identity_origin@,
                cfg.environment_id@,
                session_id@,
                loopback_port,
            ) == Err::<Seq<char>, SigninUrlError>(e),
        },
{
    let mut rv: Vec<char> = Vec::new();
    push_str(&mut rv, "http://127.0.0.1:");
    push_decimal(&mut rv, loopback_port as u128);
    push_str(&mut rv, LOOPBACK_OAUTH_REDIRECT_PATH);
    let rs = string_of(&rv);
    proof {
        assert(rs@ =~= loopback_redirect_text(loopback_port));
    }
    let redirect = match url_parse_display(rs.as_str()) {
        Some(x) => x,
        None => return Err(SigninUrlError::RedirectUrl),
    };
    let mut bv: Vec<char> = Vec::new();
    push_str(&mut bv, cfg.identity_origin.as_str());
    push_str(&mut bv, "/signin/");
    push_str(&mut bv, cfg.environment_id.as_str());
    let base = string_of(&bv);
    let mut pairs: Vec<(String, String)> = Vec::new();
    pairs.push(("cli_sess".to_owned(), session_id.to_owned()));
    pairs.push(("cli_redirect".to_owned(), redirect));
    proof {
        assert(base@ =~= cfg.identity_origin@ + "/signin/"@ + cfg.environment_id@);
        assert(pairs_view(pairs@) =~= seq![("cli_sess"@, session_id@), ("cli_redirect"@, redirect@)]);
    }
    match url_with_pairs(base.as_str(), &pairs) {
        Some(u) => Ok(u),
        None => Err(SigninUrlError::SigninUrl),
    }
}

// ---------------------------------------------------------------------------
// Poll / redeem responses
// ---------------------------------------------------------------------------

/// Milliseconds to wait before polling again.
pub const POLL_RETRY_MILLIS: u64 = 750;

/// Result of interpreting one poll (or redeem) response.
#[derive(Debug, PartialEq, Eq)]
pub enum PollStep {
    /// Sleep this many milliseconds, then poll again (pending, or an unknown status).
    Wait(u64),
    /// Terminal success.
    Tokens { access_token: String, refresh_token: String },
}

/// Why a poll response ends the sign-in.
#[derive(Debug, PartialEq, Eq)]
pub enum PollError {
    /// HTTP 410: the login session expired server-side.
    Expired { status: u16 },
    /// Any other status outside `200..300`.
    Http { status: u16, body: String },
    /// The body is not the expected JSON object. `detail` is the JSON parser's error when
    /// the body is not JSON at all, and empty when it is JSON of another shape.
    InvalidJson { status: u16, body: String, detail: String },
    /// `complete` without a non-empty `access_token`.
    MissingAccessToken,
    /// `complete` without a non-empty `refresh_token`.
    MissingRefreshToken,
    /// `status: "error"`, with the server's message (or `poll error`).
    Server(String),
}

/// A poll step as plain values.
pub enum PollStepView {
    Wait(u64),
    Tokens(Seq<char>, Seq<char>),
}

/// A poll error as plain values.
pub enum PollErrorView {
    Expired(u16),
    Http(u16, Seq<char>),
    InvalidJson(u16, Seq<char>, Seq<char>),
    MissingAccessToken,
    MissingRefreshToken,
    Server(Seq<char>),
}

impl View for PollStep {
    type V = PollStepView;

    open spec fn view(&self) -> PollStepView {
        match self {
            PollStep::Wait(ms) => PollStepView::Wait(*ms),
            PollStep::Tokens { access_token, refresh_token } => PollStepView::Tokens(
                access_token@,
                refresh_token@,
            ),
        }
    }
}

impl View for PollError {
    type V = PollErrorView;

    open spec fn view(&self) -> PollErrorView {
        match self {
            PollError::Expired { status } => PollErrorView::Expired(*status),
            PollError::Http { status, body } => PollErrorView::Http(*status, body@),
            PollError::InvalidJson { status, body, detail } => PollErrorView::InvalidJson(*status, body@, detail@),
            PollError::MissingAccessToken => PollErrorView::MissingAccessToken,
            PollError::MissingRefreshToken => PollErrorView::MissingRefreshToken,
            PollError::Server(m) => PollErrorView::Server(m@),
        }
    }
}

/// The fields of a poll response body.
pub struct PollFields {
    pub status: Seq<char>,
    pub access_token: Option<Seq<char>>,
    pub refresh_token: Option<Seq<char>>,
    pub error: Option<Seq<char>>,
}

/// An optional string field: absent or `null` is `None`; any other non-string is invalid
/// (outer `None`).
pub open spec fn opt_string_field(v: Option<Json>) -> Option<Option<Seq<char>>> {
    match v {
        None => Some(None),
        Some(Json::Null) => Some(None),
        Some(Json::Str(s)) => Some(Some(s@)),
        Some(_) => None,
    }
}

/// The `i`th element of an array, when there is one.
pub open spec fn nth(a: Seq<Json>, i: int) -> Option<Json> {
    if 0 <= i < a.len() {
        Some(a[i])
    } else {
        None
    }
}

/// How `#[derive(Deserialize)]` reads the poll body `{status, access_token?,
/// refresh_token?, error?}`: an object (unknown members ignored) or an array holding the
/// fields in order.
pub open spec fn spec_poll_fields(j: Json) -> Option<PollFields> {
    let (status, a, r, e) = match j {
        Json::Object(es) => (
            entries_get(es@, "status"@),
            entries_get(es@, "access_token"@),
            entries_get(es@, "refresh_token"@),
            entries_get(es@, "error"@),
        ),
        Json::Array(v) => if 1 <= v@.len() <= 4 {
            (nth(v@, 0), nth(v@, 1), nth(v@, 2), nth(v@, 3))
        } else {
            (None, None, None, None)
        },
        _ => (None, None, None, None),
    };
    match (status, opt_string_field(a), opt_string_field(r), opt_string_field(e)) {
        (Some(Json::Str(s)), Some(a), Some(r), Some(e)) => Some(
            PollFields { status: s@, access_token: a, refresh_token: r, error: e },
        ),
        _ => None,
    }
}

/// A token that is present and not empty.
pub open spec fn nonempty_token(t: Option<Seq<char>>) -> Option<Seq<char>> {
    match t {
        Some(s) => if s.len() > 0 {
            Some(s)
        } else {
            None
        },
        None => None,
    }
}

/// What one poll response means: HTTP status first, then the JSON `status` field.
pub open spec fn spec_poll_step(status: u16, body: Seq<char>) -> Result<PollStepView, PollErrorView> {
    if status == 410 {
        Err(PollErrorView::Expired(status))
    } else if !(200 <= status < 300) {
        Err(PollErrorView::Http(status, body))
    } else {
        match spec_json_parse(encode_utf8(body)) {
            None => Err(PollErrorView::InvalidJson(status, body, spec_json_error(encode_utf8(body)))),
            Some(j) => match spec_poll_fields(j) {
                None => Err(PollErrorView::InvalidJson(status, body, Seq::empty())),
                Some(f) => if f.status == "pending"@ {
                    Ok(PollStepView::Wait(750))
                } else if f.status == "complete"@ {
                    match nonempty_token(f.access_token) {
                        None => Err(PollErrorView::MissingAccessToken),
                        Some(at) => match nonempty_token(f.refresh_token) {
                            None => Err(PollErrorView::MissingRefreshToken),
                            Some(rt) => Ok(PollStepView::Tokens(at, rt)),
                        },
                    }
                } else if f.status == "error"@ {
                    Err(
                        PollErrorView::Server(
                            match f.error {
                                Some(m) => m,
                                None => "poll error"@,
                            },
                        ),
                    )
                } else {
                    Ok(PollStepView::Wait(750))
                },
            },
        }
    }
}

/// Reads an optional string field.
fn read_opt_string(v: Option<&Json>) -> (r: Result<Option<String>, ()>)
    ensures
        match opt_string_field(
            match v {
                Some(j) => Some(*j),
                None => None,
            },
        ) {
            None => r is Err,
            Some(o) => r matches Ok(x) && opt_view(x) == o,
        },
{
    match v {
        None => Ok(None),
        Some(Json::Null) => Ok(None),
        Some(Json::Str(s)) => Ok(Some(s.clone())),
        Some(_) => Err(()),
    }
}

/// Fields of a poll body as owned strings.
struct PollFieldsExec {
    status: String,
    access_token: Option<String>,
    refresh_token: Option<String>,
    error: Option<String>,
}

fn get_nth(a: &Vec<Json>, i: usize) -> (r: Option<&Json>)
    ensures
        match nth(a@, i as int) {
            Some(j) => r == Some(&j),
            None => r is None,
        },
{
    if i < a.len() {
        Some(&a[i])
    } else {
        None
    }
}

fn poll_fields(j: &Json) -> (r: Option<PollFieldsExec>)
    ensures
        match spec_poll_fields(*j) {
            None => r is None,
            Some(f) => r matches Some(x) && x.status@ == f.status && opt_view(x.access_token)
                == f.access_token && opt_view(x.refresh_token) == f.refresh_token && opt_view(
                x.error,
            ) == f.error,
        },
{
    let (status, a, rt, e): (Option<&Json>, Option<&Json>, Option<&Json>, Option<&Json>) =
        match j {
        Json::Object(_) => (j.get("status"), j.get("access_token"), j.get("refresh_token"), j.get(
            "error",
        )),
        Json::Array(v) => if 1 <= v.len() && v.len() <= 4 {
            (get_nth(v, 0), get_nth(v, 1), get_nth(v, 2), get_nth(v, 3))
        } else {
            (None, None, None, None)
        },
        _ => (None, None, None, None),
    };
    let s = match status {
        Some(Json::Str(s)) => s.clone(),
        _ => return None,
    };
    let a = match read_opt_string(a) {
        Ok(x) => x,
        Err(()) => return None,
    };
    let r = match read_opt_string(rt) {
        Ok(x) => x,
        Err(()) => return None,
    };
    let er = match read_opt_string(e) {
        Ok(x) => x,
        Err(()) => return None,
    };
    Some(PollFieldsExec { status: s, access_token: a, refresh_token: r, error: er })
}

fn take_nonempty(t: Option<String>) -> (r: Option<String>)
    ensures
        opt_view(r) == nonempty_token(opt_view(t)),
{
    match t {
        Some(s) => if s.as_str().is_empty() {
            None
        } else {
            Some(s)
        },
        None => None,
    }
}

/// Decides what to do after a poll response (HTTP status and JSON body).
pub fn poll_step_for_response(status: u16, body: &str) -> (r: Result<PollStep, PollError>)
    ensures
        match r {
            Ok(s) => Ok(s@),
            Err(e) => Err(e@),
        } == spec_poll_step(status, body@),
{
    if status == 410 {
        return Err(PollError::Expired { status });
    }
    if !(200 <= status && status < 300) {
        return Err(PollError::Http { status, body: body.to_owned() });
    }
    let j = match crate::json::read_json_bytes(body.as_bytes()) {
        Ok(j) => j,
        Err(e) => return Err(PollError::InvalidJson { status, body: body.to_owned(), detail: e }),
    };
    let f = match poll_fields(&j) {
        Some(f) => f,
        None => return Err(PollError::InvalidJson { status, body: body.to_owned(), detail: String::new() }),
    };
    if str_eq(f.status.as_str(), "pending") {
        Ok(PollStep::Wait(POLL_RETRY_MILLIS))
    } else if str_eq(f.status.as_str(), "complete") {
        let at = match take_nonempty(f.access_token) {
            Some(t) => t,
            None => return Err(PollError::MissingAccessToken),
        };
        let rt = match take_nonempty(f.refresh_token) {
            Some(t) => t,
            None => return Err(PollError::MissingRefreshToken),
        };
        Ok(PollStep::Tokens { access_token: at, refresh_token: rt })
    } else if str_eq(f.status.as_str(), "error") {
        Err(
            PollError::Server(
                match f.error {
                    Some(m) => m,
                    None => "poll error".to_owned(),
                },
            ),
        )
    } else {
        Ok(PollStep::Wait(POLL_RETRY_MILLIS))
    }
}

/// The Identity redeem endpoint answers in the same shape as poll.
pub fn redeem_step_for_response(status: u16, body: &str) -> (r: Result<PollStep, PollError>)
    ensures
        match r {
            Ok(s) => Ok(s@),
            Err(e) => Err(e@),
        } == spec_poll_step(status, body@),
{
    poll_step_for_response(status, body)
}

/// The message of a poll error.
pub open spec fn spec_poll_error_message(e: PollErrorView) -> Seq<char> {
    match e {
        PollErrorView::Expired(s) => "login session expired server-side (HTTP "@ + decimal(
            s as nat,
        ) + "); close the browser tab and run /login again"@,
        PollErrorView::Http(s, b) => "poll HTTP "@ + decimal(s as nat) + ": "@ + b,
        PollErrorView::InvalidJson(s, b, d) => "invalid poll JSON (HTTP "@ + decimal(s as nat)
            + "): "@ + b + if d.len() > 0 {
            ": "@ + d
        } else {
            Seq::empty()
        },
        PollErrorView::MissingAccessToken => "poll missing access_token"@,
        PollErrorView::MissingRefreshToken => "poll missing refresh_token"@,
        PollErrorView::Server(m) => m,
    }
}

impl PollError {
    /// Human-readable message.
    pub fn message(&self) -> (r: String)
        ensures
            r@ == spec_poll_error_message(self@),
    {
        let mut v: Vec<char> = Vec::new();
        match self {
            PollError::Expired { status } => {
                push_str(&mut v, "login session expired server-side (HTTP ");
                push_decimal(&mut v, *status as u128);
                push_str(&mut v, "); close the browser tab and run /login again");
            },
            PollError::Http { status, body } => {
                push_str(&mut v, "poll HTTP ");
                push_decimal(&mut v, *status as u128);
                push_str(&mut v, ": ");
                push_str(&mut v, body.as_str());
            },
            PollError::InvalidJson { status, body, detail } => {
                push_str(&mut v, "invalid poll JSON (HTTP ");
                push_decimal(&mut v, *status as u128);
                push_str(&mut v, "): ");
                push_str(&mut v, body.as_str());
                let dc = chars_of(detail.as_str());
                if dc.len() > 0 {
                    push_str(&mut v, ": ");
                    push_str(&mut v, detail.as_str());
                }
            },
            PollError::MissingAccessToken => {
                push_str(&mut v, "poll missing access_token");
            },
            PollError::MissingRefreshToken => {
                push_str(&mut v, "poll missing refresh_token");
            },
            PollError::Server(m) => {
                push_str(&mut v, m.as_str());
            },
        }
        proof {
            assert(v@ =~= spec_poll_error_message(self@));
        }
        string_of(&v)
    }
}

// ---------------------------------------------------------------------------
// Loopback callback
// ---------------------------------------------------------------------------

/// An ASCII hexadecimal digit.
pub open spec fn is_hex(c: char) -> bool {
    let u = c as int;
    (48 <= u <= 57) || (65 <= u <= 70) || (97 <= u <= 102)
}

/// A grant is 64 hexadecimal digits.
pub open spec fn spec_looks_like_grant(s: Seq<char>) -> bool {
    s.len() == 64 && forall|i: int| 0 <= i < s.len() ==> is_hex(#[trigger] s[i])
}

/// Whether `s` is 64 hexadecimal digits.
pub fn looks_like_grant(s: &str) -> (b: bool)
    ensures
        b == spec_looks_like_grant(s@),
{
    let cs = chars_of(s);
    if cs.len() != 64 {
        return false;
    }
    let mut i: usize = 0;
    while i < cs.len()
        invariant
            i <= cs@.len(),
            cs@ == s@,
            forall|m: int| 0 <= m < i ==> is_hex(#[trigger] cs@[m]),
        decreases cs@.len() - i,
    {
        let u = crate::text::char_code(cs[i]);
        if !((48 <= u && u <= 57) || (65 <= u && u <= 70) || (97 <= u && u <= 102)) {
            return false;
        }
        i = i + 1;
    }
    true
}

/// The first `grant` query value that looks like a grant.
pub open spec fn first_grant(pairs: Seq<(Seq<char>, Seq<char>)>) -> Option<Seq<char>>
    decreases pairs.len(),
{
    if pairs.len() == 0 {
        None
    } else if pairs[0].0 == "grant"@ && spec_looks_like_grant(pairs[0].1) {
        Some(pairs[0].1)
    } else {
        first_grant(pairs.drop_first())
    }
}

/// The grant carried by a loopback request target `/oauth/callback?grant=…`.
pub open spec fn spec_grant_from_target(uri: Seq<char>) -> Option<Seq<char>> {
    if !(uri.len() > 0 && uri[0] == '/') {
        None
    } else {
        match spec_url_path_and_query("http://127.0.0.1"@ + uri) {
            None => None,
            Some((path, pairs)) => if path == "/oauth/callback"@ {
                first_grant(pairs)
            } else {
                None
            },
        }
    }
}

/// Grant from the request target of the browser's redirect to the loopback listener.
pub fn parse_grant_from_request_target(uri: &str) -> (r: Option<String>)
    ensures
        opt_view(r) == spec_grant_from_target(uri@),
{
    let cs = chars_of(uri);
    if !(cs.len() > 0 && cs[0] == '/') {
        return None;
    }
    let mut v: Vec<char> = Vec::new();
    push_str(&mut v, "http://127.0.0.1");
    push_chars(&mut v, &cs);
    let full = string_of(&v);
    let (path, pairs) = match url_path_and_query(full.as_str()) {
        Some(x) => x,
        None => return None,
    };
    if !str_eq(path.as_str(), LOOPBACK_OAUTH_REDIRECT_PATH) {
        return None;
    }
    let ghost pv = pairs_view(pairs@);
    let mut i: usize = 0;
    proof {
        assert(pv.skip(0) =~= pv);
        assert(full@ =~= "http://127.0.0.1"@ + uri@);
        assert(spec_grant_from_target(uri@) == first_grant(pv));
    }
    while i < pairs.len()
        invariant
            i <= pairs@.len(),
            pv == pairs_view(pairs@),
            spec_grant_from_target(uri@) == first_grant(pv),
            first_grant(pv) == first_grant(pv.skip(i as int)),
        decreases pairs@.len() - i,
    {
        proof {
            assert(pv.skip(i as int).drop_first() =~= pv.skip(i + 1));
            assert(pv.skip(i as int)[0] == (pairs@[i as int].0@, pairs@[i as int].1@));
        }
        if str_eq(pairs[i].0.as_str(), "grant") && looks_like_grant(pairs[i].1.as_str()) {
            return Some(pairs[i].1.clone());
        }
        i = i + 1;
    }
    None
}

/// What the loopback listener answers to one request.
#[derive(Debug, PartialEq, Eq)]
pub enum LoopbackReply {
    /// Fewer than two tokens on the request line: `400 Bad Request`.
    BadRequest,
    /// A method other than `GET`: `405 Method Not Allowed`.
    MethodNotAllowed,
    /// The redirect carried a grant: `200 OK` with the success page.
    Grant(String),
    /// Anything else: `404 Not Found`.
    NotFound,
}

/// A loopback answer as plain values.
pub enum LoopbackReplyView {
    BadRequest,
    MethodNotAllowed,
    Grant(Seq<char>),
    NotFound,
}

impl View for LoopbackReply {
    type V = LoopbackReplyView;

    open spec fn view(&self) -> LoopbackReplyView {
        match self {
            LoopbackReply::BadRequest => LoopbackReplyView::BadRequest,
            LoopbackReply::MethodNotAllowed => LoopbackReplyView::MethodNotAllowed,
            LoopbackReply::Grant(g) => LoopbackReplyView::Grant(g@),
            LoopbackReply::NotFound => LoopbackReplyView::NotFound,
        }
    }
}

/// The answer to an HTTP request line (`GET /oauth/callback?grant=… HTTP/1.1`).
pub open spec fn spec_loopback_reply(line: Seq<char>) -> LoopbackReplyView {
    let parts = split_ws(line);
    if parts.len() < 2 {
        LoopbackReplyView::BadRequest
    } else if lower_seq(parts[0]) != "get"@ {
        LoopbackReplyView::MethodNotAllowed
    } else {
        match spec_grant_from_target(parts[1]) {
            Some(g) => LoopbackReplyView::Grant(g),
            None => LoopbackReplyView::NotFound,
        }
    }
}

/// Decides the loopback listener's answer from the request line.
pub fn loopback_reply_for_request_line(line: &str) -> (r: LoopbackReply)
    ensures
        r@ == spec_loopback_reply(line@),
{
    let cs = chars_of(line);
    let parts = split_whitespace(&cs);
    proof {
        assert(parts@.len() == split_ws(line@).len());
    }
    if parts.len() < 2 {
        return LoopbackReply::BadRequest;
    }
    let method = lower_chars(&parts[0]);
    let get = chars_of("get");
    if !crate::text::chars_eq(&method, &get) {
        proof {
            assert(split_ws(line@)[0] == parts@[0]@);
        }
        return LoopbackReply::MethodNotAllowed;
    }
    let target = string_of(&parts[1]);
    proof {
        assert(split_ws(line@)[0] == parts@[0]@);
        assert(split_ws(line@)[1] == parts@[1]@);
    }
    match parse_grant_from_request_target(target.as_str()) {
        Some(g) => LoopbackReply::Grant(g),
        None => LoopbackReply::NotFound,
    }
}

/// Whether a header line read from the loopback request ends the header block (an
/// empty line, with or without the carriage return).
pub fn ends_http_headers(line: &str) -> (b: bool)
    ensures
        b == (line@ == "\r\n"@ || line@ == "\n"@),
{
    str_eq(line, "\r\n") || str_eq(line, "\n")
}

} // verus!
