//! Slash commands: the registry, the autocomplete palette, and how a submitted line is
//! understood.

use vstd::prelude::*;
use vstd::utf8::encode_utf8;

use crate::api::{byte_len, prefix_within};
use crate::cli_login::{CliAuthConfig, DEFAULT_IDENTITY_ORIGIN};
use crate::json::Json;
use crate::seqs::{dedup, isort};
use crate::tenants::{listing_items, raw_ids, tenant_ids_from_body};
use crate::text::{str_eq, str_gt, str_same, strs_view};
use crate::text::{
    chars_eq, chars_of, decimal, has_char, join_seq, lower_chars, lower_seq, pad_right,
    push_chars, push_decimal, push_padded, push_str, split_whitespace, split_ws,
    starts_with, starts_with_seq, string_of, trim_chars, trim_seq, trim_start_char,
    trim_start_char_seq, trim_start_index, trim_start_seq, vecs_view,
};

verus! {

/// A slash command and its one-line description.
pub struct SlashCmd {
    pub name: &'static str,
    pub desc: &'static str,
}

/// Names of the commands, in palette order.
pub open spec fn cmd_names() -> Seq<Seq<char>> {
    seq![
        "help"@,
        "login"@,
        "logout"@,
        "whoami"@,
        "tenants"@,
        "tenant"@,
        "projects"@,
        "browse"@,
        "organizations"@,
        "status"@,
        "quit"@,
    ]
}

/// Descriptions of the commands, in palette order.
pub open spec fn cmd_descs() -> Seq<Seq<char>> {
    seq![
        "Show available commands"@,
        "Sign in to Authdog"@,
        "Delete saved credentials locally"@,
        "Identity from api.authdog.com (/v1/userinfo)"@,
        "Interactive tenant list (↑↓ Enter) · api /v1/tenants"@,
        "Show/set/clear current tenant id (for /projects)"@,
        "Interactive projects list (↑↓ Enter) · /v1/tenants/{tenant}/projects"@,
        "Pick org · tenant · project · env (↑↓ Enter Esc)"@,
        "Pick org (↑↓ Enter) · persists org (clears stale tenant/project/env) · /orgs"@,
        "Session · tokens preview · organization · tenant · project · env"@,
        "Exit the CLI"@,
    ]
}

/// The command registry.
pub fn cmds() -> (r: Vec<SlashCmd>)
    ensures
        r@.len() == cmd_names().len(),
        forall|i: int| 0 <= i < r@.len() ==> (#[trigger] r@[i]).name@ == cmd_names()[i] && r@[i].desc@ == cmd_descs()[i],
{
    let v = vec![
        SlashCmd { name: "help", desc: "Show available commands" },
        SlashCmd { name: "login", desc: "Sign in to Authdog" },
        SlashCmd { name: "logout", desc: "Delete saved credentials locally" },
        SlashCmd { name: "whoami", desc: "Identity from api.authdog.com (/v1/userinfo)" },
        SlashCmd { name: "tenants", desc: "Interactive tenant list (↑↓ Enter) · api /v1/tenants" },
        SlashCmd { name: "tenant", desc: "Show/set/clear current tenant id (for /projects)" },
        SlashCmd {
            name: "projects",
            desc: "Interactive projects list (↑↓ Enter) · /v1/tenants/{tenant}/projects",
        },
        SlashCmd { name: "browse", desc: "Pick org · tenant · project · env (↑↓ Enter Esc)" },
        SlashCmd {
            name: "organizations",
            desc: "Pick org (↑↓ Enter) · persists org (clears stale tenant/project/env) · /orgs",
        },
        SlashCmd {
            name: "status",
            desc: "Session · tokens preview · organization · tenant · project · env",
        },
        SlashCmd { name: "quit", desc: "Exit the CLI" },
    ];
    v
}

/// Indices below `n` of the commands whose name starts with `q`, in order.
pub open spec fn matching_cmds(q: Seq<char>, n: nat) -> Seq<usize>
    decreases n,
{
    if n == 0 {
        Seq::empty()
    } else {
        let rest = matching_cmds(q, (n - 1) as nat);
        if starts_with_seq(cmd_names()[n - 1], q) {
            rest.push((n - 1) as usize)
        } else {
            rest
        }
    }
}

/// `0, 1, …, n - 1`.
pub open spec fn all_indices(n: nat) -> Seq<usize> {
    Seq::new(n, |i: int| i as usize)
}

/// The autocomplete palette for the input: `None` unless the input (after leading
/// whitespace) is `/` followed by a word without spaces, tabs or newlines; then the
/// commands whose name starts with that word, ignoring ASCII case (all for an empty word).
pub open spec fn spec_palette(value: Seq<char>) -> Option<Seq<usize>> {
    let t = trim_start_seq(value);
    if !(t.len() > 0 && t[0] == '/') {
        None
    } else {
        let rest = t.drop_first();
        if has_char(rest, ' ') || has_char(rest, '\t') || has_char(rest, '\n') {
            None
        } else {
            let q = lower_seq(rest);
            if q.len() == 0 {
                Some(all_indices(cmd_names().len()))
            } else {
                Some(matching_cmds(q, cmd_names().len()))
            }
        }
    }
}

/// The matching indices below `n` are increasing, below `n`, and exactly those whose
/// command name starts with `q`.
pub proof fn lemma_matching_cmds(q: Seq<char>, n: nat)
    requires
        n <= cmd_names().len(),
    ensures
        forall|a: int, b: int| 0 <= a < b < matching_cmds(q, n).len() ==> (#[trigger] matching_cmds(q, n)[a])
            < (#[trigger] matching_cmds(q, n)[b]),
        forall|a: int| 0 <= a < matching_cmds(q, n).len() ==> (#[trigger] matching_cmds(q, n)[a]) < n,
        forall|i: int| 0 <= i < n ==> (matching_cmds(q, n).contains(i as usize) <==> starts_with_seq(
            #[trigger] cmd_names()[i],
            q,
        )),
    decreases n,
{
    if n > 0 {
        let m = (n - 1) as nat;
        lemma_matching_cmds(q, m);
        let rest = matching_cmds(q, m);
        let v = matching_cmds(q, n);
        assert forall|a: int, b: int| 0 <= a < b < v.len() implies (#[trigger] v[a]) < (#[trigger] v[b]) by {
            if b < rest.len() {
                assert(v[a] == rest[a] && v[b] == rest[b]);
            } else {
                assert(v[a] == rest[a]);
                assert(rest[a] < m);
            }
        }
        assert forall|a: int| 0 <= a < v.len() implies (#[trigger] v[a]) < n by {
            if a < rest.len() {
                assert(v[a] == rest[a]);
            }
        }
        assert forall|i: int| 0 <= i < n implies (v.contains(i as usize) <==> starts_with_seq(
            #[trigger] cmd_names()[i],
            q,
        )) by {
            if i < m {
                if v.contains(i as usize) {
                    let w = choose|w: int| 0 <= w < v.len() && v[w] == i as usize;
                    if w < rest.len() {
                        assert(rest[w] == v[w]);
                    }
                }
                if rest.contains(i as usize) {
                    let w = choose|w: int| 0 <= w < rest.len() && rest[w] == i as usize;
                    assert(v[w] == rest[w]);
                }
            } else {
                if starts_with_seq(cmd_names()[i], q) {
                    assert(v[v.len() - 1] == i as usize);
                } else if v.contains(i as usize) {
                    let w = choose|w: int| 0 <= w < v.len() && v[w] == i as usize;
                    assert(rest[w] == v[w]);
                }
            }
        }
    }
}

/// The autocomplete palette: none exactly when the input (after leading whitespace) does
/// not start with `/` or the rest holds a space, tab or newline; otherwise strictly
/// increasing indices, which are exactly the commands whose name starts with the rest,
/// lower-cased.
pub proof fn law_palette_prefix_matches(value: Seq<char>)
    ensures
        ({
            let t = trim_start_seq(value);
            let rest = t.drop_first();
            &&& (spec_palette(value) is None) <==> (!(t.len() > 0 && t[0] == '/') || has_char(rest, ' ')
                || has_char(rest, '\t') || has_char(rest, '\n'))
            &&& spec_palette(value) matches Some(v) ==> {
                &&& forall|a: int, b: int| 0 <= a < b < v.len() ==> (#[trigger] v[a]) < (#[trigger] v[b])
                &&& forall|i: int| 0 <= i < cmd_names().len() ==> (v.contains(i as usize) <==> starts_with_seq(
                    #[trigger] cmd_names()[i],
                    lower_seq(rest),
                ))
            }
        }),
{
    let t = trim_start_seq(value);
    let rest = t.drop_first();
    let n = cmd_names().len();
    if let Some(v) = spec_palette(value) {
        let q = lower_seq(rest);
        if q.len() == 0 {
            assert forall|i: int| 0 <= i < n implies (v.contains(i as usize) <==> starts_with_seq(
                #[trigger] cmd_names()[i],
                q,
            )) by {
                assert(v[i] == i as usize);
                assert(cmd_names()[i].subrange(0, 0) =~= q);
            }
        } else {
            lemma_matching_cmds(q, n);
        }
    }
}

fn has_char_exec(s: &[char], c: char) -> (b: bool)
    ensures
        b == has_char(s@, c),
{
    let mut i: usize = 0;
    while i < s.len()
        invariant
            i <= s@.len(),
            forall|m: int| 0 <= m < i ==> s@[m] != c,
        decreases s@.len() - i,
    {
        if s[i] == c {
            return true;
        }
        i = i + 1;
    }
    false
}

/// Autocomplete palette for the input line.
pub fn slash_palette_indices(value: &str) -> (r: Option<Vec<usize>>)
    ensures
        match spec_palette(value@) {
            Some(s) => r matches Some(v) && v@ == s,
            None => r is None,
        },
{
    let cs = chars_of(value);
    let start = trim_start_index(&cs);
    if !(start < cs.len() && cs[start] == '/') {
        return None;
    }
    let rest = crate::text::slice_chars(&cs, start + 1, cs.len());
    proof {
        assert(cs@.skip(start as int)[0] == cs@[start as int]);
        assert(rest@ =~= cs@.skip(start as int).drop_first());
    }
    if has_char_exec(&rest, ' ') || has_char_exec(&rest, '\t') || has_char_exec(&rest, '\n') {
        return None;
    }
    let q = lower_chars(&rest);
    let names = cmds();
    let mut out: Vec<usize> = Vec::new();
    if q.len() == 0 {
        let mut i: usize = 0;
        while i < names.len()
            invariant
                i <= names@.len() == cmd_names().len(),
                out@ =~= all_indices(i as nat),
            decreases names@.len() - i,
        {
            out.push(i);
            i = i + 1;
        }
        return Some(out);
    }
    let mut i: usize = 0;
    while i < names.len()
        invariant
            i <= names@.len() == cmd_names().len(),
            forall|k: int| 0 <= k < names@.len() ==> (#[trigger] names@[k]).name@ == cmd_names()[k],
            out@ == matching_cmds(q@, i as nat),
        decreases names@.len() - i,
    {
        let nc = chars_of(names[i].name);
        if starts_with(&nc, &q) {
            out.push(i);
        }
        i = i + 1;
    }
    Some(out)
}

/// `/{name:<14} — {desc}` for each command, joined by newlines.
pub open spec fn help_lines(n: nat) -> Seq<Seq<char>>
    decreases n,
{
    if n == 0 {
        Seq::empty()
    } else {
        help_lines((n - 1) as nat).push(
            "/"@ + pad_right(cmd_names()[n - 1], 14) + " — "@ + cmd_descs()[n - 1],
        )
    }
}

/// The `/help` text: one line per command.
pub open spec fn spec_help_text() -> Seq<char> {
    join_seq(help_lines(cmd_names().len()), "\n"@)
}

/// Text of `/help`.
pub fn help_text() -> (r: String)
    ensures
        r@ == spec_help_text(),
{
    let names = cmds();
    let mut v: Vec<char> = Vec::new();
    let mut i: usize = 0;
    while i < names.len()
        invariant
            i <= names@.len() == cmd_names().len(),
            forall|k: int|
                0 <= k < names@.len() ==> (#[trigger] names@[k]).name@ == cmd_names()[k]
                    && names@[k].desc@ == cmd_descs()[k],
            v@ == join_seq(help_lines(i as nat), "\n"@),
        decreases names@.len() - i,
    {
        let ghost before = v@;
        if i > 0 {
            push_str(&mut v, "\n");
        }
        push_str(&mut v, "/");
        let nc = chars_of(names[i].name);
        push_padded(&mut v, &nc, 14);
        push_str(&mut v, " — ");
        push_str(&mut v, names[i].desc);
        proof {
            let line = "/"@ + pad_right(cmd_names()[i as int], 14) + " — "@ + cmd_descs()[i as int];
            let hl = help_lines((i + 1) as nat);
            assert(hl.drop_last() == help_lines(i as nat));
            if i > 0 {
                assert(v@ =~= before + "\n"@ + line);
            } else {
                assert(hl =~= seq![line]);
                assert(v@ =~= line);
            }
        }
        i = i + 1;
    }
    string_of(&v)
}

// ---------------------------------------------------------------------------
// Submitted lines
// ---------------------------------------------------------------------------

/// What shows, sets or clears the current tenant.
#[derive(Debug, PartialEq, Eq)]
pub enum TenantArg {
    /// `/tenant`: show the current tenant.
    Show,
    /// `/tenant clear` or `/tenant unset` (any ASCII case).
    Clear,
    /// `/tenant <uuid>` with a valid UUID.
    Select(String),
    /// `/tenant <x>` where `x` is not a UUID.
    Invalid(String),
    /// More than one argument.
    Usage,
}

/// A submitted line, understood.
#[derive(Debug, PartialEq, Eq)]
pub enum SubmitCommand {
    /// Blank line: clears the status.
    Empty,
    Quit,
    Help,
    Login,
    Logout,
    Whoami,
    Tenants,
    Tenant(TenantArg),
    Projects,
    Browse,
    Organizations,
    Status,
    /// A `/word` that is no command; holds the first token of the line.
    Unknown(String),
    /// Text that does not start with `/`, echoed back.
    Echo(String),
}

/// Side effect the shell runs after a submit.
#[derive(PartialEq, Eq)]
pub enum SubmitEffect {
    /// Nothing more to do.
    Idle,
    BrowserLogin,
    /// Start the interactive org → tenant → projects flow.
    Browse { access_token: String },
}

/// An ASCII hexadecimal digit (`0-9`, `a-f`, `A-F`).
pub open spec fn hex_byte(c: u8) -> bool {
    (0x30 <= c <= 0x39) || (0x61 <= c <= 0x66) || (0x41 <= c <= 0x46)
}

/// 36 bytes `8-4-4-4-12`: hyphens at 8, 13, 18 and 23, hexadecimal digits elsewhere.
pub open spec fn hyphenated_uuid(b: Seq<u8>) -> bool {
    &&& b.len() == 36
    &&& forall|i: int| 0 <= i < 36 ==> if i == 8 || i == 13 || i == 18 || i == 23 {
        #[trigger] b[i] == 0x2d
    } else {
        hex_byte(b[i])
    }
}

/// ASCII lower case of a byte.
pub open spec fn lower_byte(c: u8) -> u8 {
    if 0x41 <= c <= 0x5a {
        (c + 0x20) as u8
    } else {
        c
    }
}

/// The forms `Uuid::parse_str` accepts, on the text's UTF-8 bytes: 32 hexadecimal digits;
/// the hyphenated form; the hyphenated form in braces; or `urn:uuid:` (any ASCII case)
/// before the hyphenated form.
pub open spec fn uuid_bytes(b: Seq<u8>) -> bool {
    if b.len() == 32 {
        forall|i: int| 0 <= i < 32 ==> hex_byte(#[trigger] b[i])
    } else if b.len() == 36 {
        hyphenated_uuid(b)
    } else if b.len() == 38 {
        b[0] == 0x7b && b[37] == 0x7d && hyphenated_uuid(b.subrange(1, 37))
    } else if b.len() == 45 {
        b.take(9).map_values(|c: u8| lower_byte(c)) == "urn:uuid:"@.map_values(|c: char| c as u8)
            && hyphenated_uuid(b.skip(9))
    } else {
        false
    }
}

/// Whether `Uuid::parse_str` accepts the text.
pub open spec fn spec_uuid_parses(s: Seq<char>) -> bool {
    uuid_bytes(encode_utf8(s))
}

/// Calls `uuid::Uuid::parse_str` and reports whether it succeeded: exactly for the forms
/// of [`uuid_bytes`] (its `try_parse` dispatches on the byte length and decodes the hex
/// digits case-insensitively).
#[verifier::external_body]
pub(crate) fn uuid_parses(s: &str) -> (b: bool)
    ensures
        b == spec_uuid_parses(s@),
{
    uuid::Uuid::parse_str(s).is_ok()
}

/// A `/tenant` argument as plain values.
pub enum TenantArgView {
    Show,
    Clear,
    Select(Seq<char>),
    Invalid(Seq<char>),
    Usage,
}

/// A submitted command as plain values.
pub enum SubmitView {
    Empty,
    Quit,
    Help,
    Login,
    Logout,
    Whoami,
    Tenants,
    Tenant(TenantArgView),
    Projects,
    Browse,
    Organizations,
    Status,
    Unknown(Seq<char>),
    Echo(Seq<char>),
}

impl View for SubmitCommand {
    type V = SubmitView;

    open spec fn view(&self) -> SubmitView {
        match self {
            SubmitCommand::Empty => SubmitView::Empty,
            SubmitCommand::Quit => SubmitView::Quit,
            SubmitCommand::Help => SubmitView::Help,
            SubmitCommand::Login => SubmitView::Login,
            SubmitCommand::Logout => SubmitView::Logout,
            SubmitCommand::Whoami => SubmitView::Whoami,
            SubmitCommand::Tenants => SubmitView::Tenants,
            SubmitCommand::Tenant(a) => SubmitView::Tenant(
                match a {
                    TenantArg::Show => TenantArgView::Show,
                    TenantArg::Clear => TenantArgView::Clear,
                    TenantArg::Select(s) => TenantArgView::Select(s@),
                    TenantArg::Invalid(s) => TenantArgView::Invalid(s@),
                    TenantArg::Usage => TenantArgView::Usage,
                },
            ),
            SubmitCommand::Projects => SubmitView::Projects,
            SubmitCommand::Browse => SubmitView::Browse,
            SubmitCommand::Organizations => SubmitView::Organizations,
            SubmitCommand::Status => SubmitView::Status,
            SubmitCommand::Unknown(s) => SubmitView::Unknown(s@),
            SubmitCommand::Echo(s) => SubmitView::Echo(s@),
        }
    }
}

/// The argument of `/tenant` from the tokens of the line.
pub open spec fn spec_tenant_arg(tokens: Seq<Seq<char>>) -> TenantArgView {
    if tokens.len() == 1 {
        TenantArgView::Show
    } else if tokens.len() == 2 {
        let a = tokens[1];
        if lower_seq(a) == "clear"@ || lower_seq(a) == "unset"@ {
            TenantArgView::Clear
        } else if spec_uuid_parses(trim_seq(a)) {
            TenantArgView::Select(trim_seq(a))
        } else {
            TenantArgView::Invalid(trim_seq(a))
        }
    } else {
        TenantArgView::Usage
    }
}

/// The command word: the first token without leading `/`, ASCII lower-cased.
pub open spec fn command_word(line: Seq<char>) -> Seq<char> {
    let toks = split_ws(line);
    lower_seq(trim_start_char_seq(if toks.len() > 0 { toks[0] } else { Seq::empty() }, '/'))
}

/// How a submitted line is understood (`apply_submit`'s dispatch).
pub open spec fn spec_classify(input: Seq<char>) -> SubmitView {
    let line = trim_seq(input);
    let w = command_word(line);
    if line.len() == 0 {
        SubmitView::Empty
    } else if w == "quit"@ || w == "q"@ {
        SubmitView::Quit
    } else if w.len() == 0 || w == "help"@ || w == "h"@ || w == "?"@ {
        SubmitView::Help
    } else if w == "login"@ {
        SubmitView::Login
    } else if w == "logout"@ {
        SubmitView::Logout
    } else if w == "whoami"@ || w == "me"@ {
        SubmitView::Whoami
    } else if w == "tenants"@ {
        SubmitView::Tenants
    } else if w == "tenant"@ {
        SubmitView::Tenant(spec_tenant_arg(split_ws(line)))
    } else if w == "projects"@ {
        SubmitView::Projects
    } else if w == "browse"@ || w == "navigator"@ {
        SubmitView::Browse
    } else if w == "organizations"@ || w == "orgs"@ {
        SubmitView::Organizations
    } else if w == "status"@ {
        SubmitView::Status
    } else if line[0] == '/' {
        SubmitView::Unknown(split_ws(line)[0])
    } else {
        SubmitView::Echo(line)
    }
}

/// The registry name of the command a line was understood as (`None` for a blank line,
/// an unknown command or echoed text).
pub open spec fn command_name(c: SubmitView) -> Option<Seq<char>> {
    match c {
        SubmitView::Help => Some("help"@),
        SubmitView::Login => Some("login"@),
        SubmitView::Logout => Some("logout"@),
        SubmitView::Whoami => Some("whoami"@),
        SubmitView::Tenants => Some("tenants"@),
        SubmitView::Tenant(_) => Some("tenant"@),
        SubmitView::Projects => Some("projects"@),
        SubmitView::Browse => Some("browse"@),
        SubmitView::Organizations => Some("organizations"@),
        SubmitView::Status => Some("status"@),
        SubmitView::Quit => Some("quit"@),
        _ => None,
    }
}

/// A word of ASCII lower-case letters.
pub open spec fn lower_word(w: Seq<char>) -> bool
    decreases w.len(),
{
    w.len() == 0 || (97 <= (w[0] as int) <= 122 && lower_word(w.drop_first()))
}

/// A word of ASCII letters, in either case.
pub open spec fn letters_word(w: Seq<char>) -> bool {
    forall|i: int| 0 <= i < w.len() ==> (65 <= (#[trigger] w[i] as int) <= 90 || 97 <= (w[i] as int) <= 122)
}

proof fn lemma_lower_word_chars(w: Seq<char>)
    requires
        lower_word(w),
    ensures
        forall|i: int| 0 <= i < w.len() ==> 97 <= (#[trigger] w[i] as int) <= 122,
    decreases w.len(),
{
    if w.len() > 0 {
        lemma_lower_word_chars(w.drop_first());
        assert forall|i: int| 0 <= i < w.len() implies 97 <= (#[trigger] w[i] as int) <= 122 by {
            if i > 0 {
                assert(w[i] == w.drop_first()[i - 1]);
            }
        }
    }
}

proof fn lemma_tokens_without_ws(s: Seq<char>, cur: Seq<char>, acc: Seq<Seq<char>>)
    requires
        forall|i: int| 0 <= i < s.len() ==> !crate::text::is_ws(#[trigger] s[i]),
    ensures
        crate::text::tokens_from(s, cur, acc) == if (cur + s).len() > 0 {
            acc.push(cur + s)
        } else {
            acc
        },
    decreases s.len(),
{
    if s.len() == 0 {
        assert(cur + s =~= cur);
    } else {
        assert(!crate::text::is_ws(s[0]));
        let d = s.drop_first();
        assert forall|i: int| 0 <= i < d.len() implies !crate::text::is_ws(#[trigger] d[i]) by {
            assert(d[i] == s[i + 1]);
        }
        lemma_tokens_without_ws(d, cur.push(s[0]), acc);
        assert(cur.push(s[0]) + d =~= cur + s);
    }
}

/// `/` then a word of ASCII letters: the line is its own single token and the command
/// word is the word lower-cased.
proof fn lemma_slash_word(w: Seq<char>)
    requires
        w.len() > 0,
        letters_word(w),
    ensures
        trim_seq("/"@ + w) == "/"@ + w,
        split_ws("/"@ + w) == seq!["/"@ + w],
        command_word("/"@ + w) == lower_seq(w),
        ("/"@ + w)[0] == '/',
{
    reveal_strlit("/");
    let line = "/"@ + w;
    assert(line[0] == '/');
    assert(line.last() == w.last());
    assert(!crate::text::is_ws(line[0]));
    assert(!crate::text::is_ws(line.last()));
    assert(trim_start_seq(line) == line);
    assert(crate::text::trim_end_seq(line) == line);
    assert forall|i: int| 0 <= i < line.len() implies !crate::text::is_ws(#[trigger] line[i]) by {
        if i > 0 {
            assert(line[i] == w[i - 1]);
        }
    }
    lemma_tokens_without_ws(line, Seq::empty(), Seq::empty());
    assert(Seq::<char>::empty() + line =~= line);
    assert(split_ws(line) =~= seq![line]);
    assert(line.drop_first() =~= w);
    assert(w[0] != '/');
    assert(trim_start_char_seq(line, '/') == trim_start_char_seq(w, '/'));
    assert(trim_start_char_seq(w, '/') == w);
}

/// A registry name (or alias), in any ASCII case after `/`, is understood as its command.
#[verifier::rlimit(40)]
proof fn lemma_name_classifies(w: Seq<char>, name: Seq<char>, expected: Option<Seq<char>>)
    requires
        w.len() > 0,
        letters_word(w),
        lower_seq(w) == name,
        expected == (if name == "orgs"@ {
            Some("organizations"@)
        } else if name == "me"@ {
            Some("whoami"@)
        } else if name == "navigator"@ {
            Some("browse"@)
        } else if name == "q"@ {
            Some("quit"@)
        } else if name == "h"@ {
            Some("help"@)
        } else {
            Some(name)
        }),
        name == "help"@ || name == "login"@ || name == "logout"@ || name == "whoami"@ || name == "tenants"@
            || name == "tenant"@ || name == "projects"@ || name == "browse"@ || name == "organizations"@
            || name == "status"@ || name == "quit"@ || name == "orgs"@ || name == "me"@ || name == "navigator"@
            || name == "q"@ || name == "h"@,
    ensures
        command_name(spec_classify("/"@ + w)) == expected,
{
    lemma_slash_word(w);
    reveal_strlit("help");
    reveal_strlit("login");
    reveal_strlit("logout");
    reveal_strlit("whoami");
    reveal_strlit("tenants");
    reveal_strlit("tenant");
    reveal_strlit("projects");
    reveal_strlit("browse");
    reveal_strlit("organizations");
    reveal_strlit("status");
    reveal_strlit("quit");
    reveal_strlit("orgs");
    reveal_strlit("me");
    reveal_strlit("navigator");
    reveal_strlit("q");
    reveal_strlit("h");
    reveal_strlit("?");
    let line = "/"@ + w;
    assert(trim_seq(line) == line);
    assert(command_word(line) == name);
    assert("help"@.len() == 4);
    assert("login"@.len() == 5);
    assert("logout"@.len() == 6);
    assert("whoami"@.len() == 6);
    assert("tenants"@.len() == 7);
    assert("tenant"@.len() == 6);
    assert("projects"@.len() == 8);
    assert("browse"@.len() == 6);
    assert("organizations"@.len() == 13);
    assert("status"@.len() == 6);
    assert("quit"@.len() == 4);
    assert("orgs"@.len() == 4);
    assert("me"@.len() == 2);
    assert("navigator"@.len() == 9);
    assert("q"@.len() == 1);
    assert("h"@.len() == 1);
    assert("?"@.len() == 1);
    assert("help"@[0] == 'h' && "quit"@[0] == 'q' && "orgs"@[0] == 'o' && "h"@[0] == 'h' && "q"@[0] == 'q');
    let c = spec_classify(line);
    if name == "help"@ {
        assert("help"@[0] != "quit"@[0]);
        assert(c == SubmitView::Help);
    } else if name == "login"@ {
        assert(c == SubmitView::Login);
    } else if name == "logout"@ {
        assert(c == SubmitView::Logout);
    } else if name == "whoami"@ {
        assert(c == SubmitView::Whoami);
    } else if name == "tenants"@ {
        assert(c == SubmitView::Tenants);
    } else if name == "tenant"@ {
        assert(c is Tenant);
    } else if name == "projects"@ {
        assert(c == SubmitView::Projects);
    } else if name == "browse"@ {
        assert(c == SubmitView::Browse);
    } else if name == "organizations"@ {
        assert(c == SubmitView::Organizations);
    } else if name == "status"@ {
        assert(c == SubmitView::Status);
    } else if name == "quit"@ {
        assert(c == SubmitView::Quit);
    } else if name == "orgs"@ {
        assert(c == SubmitView::Organizations);
    } else if name == "me"@ {
        assert(c == SubmitView::Whoami);
    } else if name == "navigator"@ {
        assert(c == SubmitView::Browse);
    } else if name == "q"@ {
        assert(c == SubmitView::Quit);
    } else if name == "h"@ {
        assert(c == SubmitView::Help);
    }
}

/// Every command of the registry, typed as `/` and its name in any ASCII case, is
/// understood as that command (never as unknown); so are the aliases `/orgs`
/// (organisations), `/me` (whoami), `/navigator` (browse), `/q` (quit) and `/h` (help).
pub proof fn law_registry_names_classify_as_their_command(w: Seq<char>)
    ensures
        forall|i: int| 0 <= i < cmd_names().len() ==> command_name(spec_classify("/"@ + #[trigger] cmd_names()[i]))
            == Some(cmd_names()[i]),
        forall|i: int| 0 <= i < cmd_names().len() && w.len() > 0 && letters_word(w) && lower_seq(w)
            == #[trigger] cmd_names()[i] ==> command_name(spec_classify("/"@ + w)) == Some(cmd_names()[i]),
        command_name(spec_classify("/"@ + "orgs"@)) == Some("organizations"@),
        command_name(spec_classify("/"@ + "me"@)) == Some("whoami"@),
        command_name(spec_classify("/"@ + "navigator"@)) == Some("browse"@),
        command_name(spec_classify("/"@ + "q"@)) == Some("quit"@),
        command_name(spec_classify("/"@ + "h"@)) == Some("help"@),
{
    reveal_with_fuel(lower_word, 14);
    reveal_strlit("help");
    reveal_strlit("login");
    reveal_strlit("logout");
    reveal_strlit("whoami");
    reveal_strlit("tenants");
    reveal_strlit("tenant");
    reveal_strlit("projects");
    reveal_strlit("browse");
    reveal_strlit("organizations");
    reveal_strlit("status");
    reveal_strlit("quit");
    reveal_strlit("orgs");
    reveal_strlit("me");
    reveal_strlit("navigator");
    reveal_strlit("q");
    reveal_strlit("h");
    assert forall|i: int| 0 <= i < cmd_names().len() implies command_name(spec_classify("/"@ + #[trigger] cmd_names()[i]))
        == Some(cmd_names()[i]) by {
        let n = cmd_names()[i];
        assert(lower_word(n));
        lemma_lower_word_chars(n);
        assert(lower_seq(n) =~= n);
        lemma_name_classifies(n, n, Some(n));
    }
    assert forall|i: int| 0 <= i < cmd_names().len() && w.len() > 0 && letters_word(w) && lower_seq(w)
        == #[trigger] cmd_names()[i] implies command_name(spec_classify("/"@ + w)) == Some(cmd_names()[i]) by {
        let n = cmd_names()[i];
        assert(lower_word(n));
        lemma_name_classifies(w, n, Some(n));
    }
    assert(lower_word("orgs"@) && lower_word("me"@) && lower_word("navigator"@) && lower_word("q"@) && lower_word("h"@));
    lemma_lower_word_chars("orgs"@);
    lemma_lower_word_chars("me"@);
    lemma_lower_word_chars("navigator"@);
    lemma_lower_word_chars("q"@);
    lemma_lower_word_chars("h"@);
    assert(lower_seq("orgs"@) =~= "orgs"@);
    assert(lower_seq("me"@) =~= "me"@);
    assert(lower_seq("navigator"@) =~= "navigator"@);
    assert(lower_seq("q"@) =~= "q"@);
    assert(lower_seq("h"@) =~= "h"@);
    lemma_name_classifies("orgs"@, "orgs"@, Some("organizations"@));
    lemma_name_classifies("me"@, "me"@, Some("whoami"@));
    lemma_name_classifies("navigator"@, "navigator"@, Some("browse"@));
    lemma_name_classifies("q"@, "q"@, Some("quit"@));
    lemma_name_classifies("h"@, "h"@, Some("help"@));
}

fn word_is(w: &[char], lit: &str) -> (b: bool)
    ensures
        b == (w@ == lit@),
{
    let l = chars_of(lit);
    chars_eq(w, &l)
}

/// Understands a submitted line.
pub fn classify_submit(input: &str) -> (r: SubmitCommand)
    ensures
        r@ == spec_classify(input@),
{
    let raw = chars_of(input);
    let line = trim_chars(&raw);
    if line.len() == 0 {
        return SubmitCommand::Empty;
    }
    let toks = split_whitespace(&line);
    let first: Vec<char> = if toks.len() > 0 {
        crate::text::slice_chars(&toks[0], 0, toks[0].len())
    } else {
        Vec::new()
    };
    proof {
        if toks@.len() > 0 {
            assert(first@ =~= toks@[0]@);
            assert(vecs_view(toks@)[0] == toks@[0]@);
        } else {
            assert(first@ =~= Seq::<char>::empty());
        }
    }
    let stripped = trim_start_char(&first, '/');
    let w = lower_chars(&stripped);
    proof {
        assert(w@ == command_word(line@));
    }
    if word_is(&w, "quit") || word_is(&w, "q") {
        SubmitCommand::Quit
    } else if w.len() == 0 || word_is(&w, "help") || word_is(&w, "h") || word_is(&w, "?") {
        SubmitCommand::Help
    } else if word_is(&w, "login") {
        SubmitCommand::Login
    } else if word_is(&w, "logout") {
        SubmitCommand::Logout
    } else if word_is(&w, "whoami") || word_is(&w, "me") {
        SubmitCommand::Whoami
    } else if word_is(&w, "tenants") {
        SubmitCommand::Tenants
    } else if word_is(&w, "tenant") {
        let arg = if toks.len() == 1 {
            TenantArg::Show
        } else if toks.len() == 2 {
            let a = lower_chars(&toks[1]);
            proof {
                assert(vecs_view(toks@)[1] == toks@[1]@);
            }
            if word_is(&a, "clear") || word_is(&a, "unset") {
                TenantArg::Clear
            } else {
                let t = trim_chars(&toks[1]);
                let ts = string_of(&t);
                if uuid_parses(ts.as_str()) {
                    TenantArg::Select(ts)
                } else {
                    TenantArg::Invalid(ts)
                }
            }
        } else {
            TenantArg::Usage
        };
        SubmitCommand::Tenant(arg)
    } else if word_is(&w, "projects") {
        SubmitCommand::Projects
    } else if word_is(&w, "browse") || word_is(&w, "navigator") {
        SubmitCommand::Browse
    } else if word_is(&w, "organizations") || word_is(&w, "orgs") {
        SubmitCommand::Organizations
    } else if word_is(&w, "status") {
        SubmitCommand::Status
    } else if line[0] == '/' {
        proof {
            assert(toks@.len() > 0) by {
                crate::text::lemma_first_token_exists(line@);
            }
        }
        SubmitCommand::Unknown(string_of(&toks[0]))
    } else {
        SubmitCommand::Echo(string_of(&line))
    }
}

impl SubmitCommand {
    /// Whether the interactive listing stays open after this command.
    pub fn keeps_listing(&self) -> (b: bool)
        ensures
            b == (self@ is Tenants || self@ is Organizations || self@ is Browse || self@ is Projects),
    {
        match self {
            SubmitCommand::Tenants | SubmitCommand::Organizations | SubmitCommand::Browse
            | SubmitCommand::Projects => true,
            _ => false,
        }
    }

    /// Whether the `/whoami` pane stays open after this command.
    pub fn keeps_whoami_output(&self) -> (b: bool)
        ensures
            b == (self@ is Whoami),
    {
        match self {
            SubmitCommand::Whoami => true,
            _ => false,
        }
    }
}

// ---------------------------------------------------------------------------
// Messages
// ---------------------------------------------------------------------------

/// `/login`'s note before the browser opens.
pub open spec fn spec_login_message(origin: Seq<char>, env: Seq<char>) -> Seq<char> {
    "Opening browser ("@ + origin + "/signin/"@ + env
        + " …).\nAUTHDOG_IDENTITY_ORIGIN overrides the host (default: "@ + "https://identity.authdog.com"@
        + ")."@
}

/// The note shown when `/login` starts.
pub fn login_message(cfg: &CliAuthConfig) -> (r: String)
    ensures
        r@ == spec_login_message(cfg.identity_origin@, cfg.environment_id@),
{
    let mut v: Vec<char> = Vec::new();
    push_str(&mut v, "Opening browser (");
    push_str(&mut v, cfg.identity_origin.as_str());
    push_str(&mut v, "/signin/");
    push_str(&mut v, cfg.environment_id.as_str());
    push_str(&mut v, " …).\nAUTHDOG_IDENTITY_ORIGIN overrides the host (default: ");
    push_str(&mut v, DEFAULT_IDENTITY_ORIGIN);
    push_str(&mut v, ").");
    proof {
        assert(v@ =~= spec_login_message(cfg.identity_origin@, cfg.environment_id@));
    }
    string_of(&v)
}

/// `Not logged in (/{command}).` with the hint to sign in.
pub fn not_logged_in_message(command: &str) -> (r: String)
    ensures
        r@ == "Not logged in (/"@ + command@ + ").\nTry /login, or use /status to confirm files."@,
{
    let mut v: Vec<char> = Vec::new();
    push_str(&mut v, "Not logged in (/");
    push_str(&mut v, command);
    push_str(&mut v, ").\nTry /login, or use /status to confirm files.");
    proof {
        assert(v@ =~= "Not logged in (/"@ + command@ + ").\nTry /login, or use /status to confirm files."@);
    }
    string_of(&v)
}

/// The access token as `/status` shows it: at most its first 28 bytes.
pub open spec fn spec_token_preview(t: Seq<char>) -> Seq<char> {
    prefix_within(t, 28)
}

/// `/status` text for a stored session.
pub open spec fn spec_status_text(path: Seq<char>, access: Seq<char>, refresh: Seq<char>) -> Seq<char> {
    "Session file: "@ + path + "\nAccess token preview: "@ + spec_token_preview(access) + "… ("@
        + decimal(byte_len(access)) + " chars)\nRefresh token: "@ + decimal(byte_len(refresh))
        + " chars"@
}

/// `/status` text: credentials file, a preview of the access token (cut at the last
/// character boundary at or below byte 28) and the token sizes (in bytes).
pub fn status_text(path: &str, access_token: &str, refresh_token: &str) -> (r: String)
    ensures
        r@ == spec_status_text(path@, access_token@, refresh_token@),
{
    let a = chars_of(access_token);
    let r = chars_of(refresh_token);
    let alen = crate::api::byte_len_of(&a);
    let rlen = crate::api::byte_len_of(&r);
    let prev = crate::api::prefix_within_exec(&a, 28);
    let mut v: Vec<char> = Vec::new();
    push_str(&mut v, "Session file: ");
    push_str(&mut v, path);
    push_str(&mut v, "\nAccess token preview: ");
    push_chars(&mut v, &prev);
    push_str(&mut v, "… (");
    push_decimal(&mut v, alen);
    push_str(&mut v, " chars)\nRefresh token: ");
    push_decimal(&mut v, rlen);
    push_str(&mut v, " chars");
    proof {
        assert(v@ =~= spec_status_text(path@, access_token@, refresh_token@));
    }
    string_of(&v)
}

// ---------------------------------------------------------------------------
// The current tenant
// ---------------------------------------------------------------------------

/// The tenant ids a `GET /v1/tenants` body lists (sorted, without repeats).
pub open spec fn spec_listed_ids(body: Json) -> Seq<Seq<char>> {
    dedup(isort(raw_ids(listing_items(body, "tenants"@)), str_gt()), str_same())
}

/// What `/tenant <uuid>` decides once the tenant listing was asked for.
#[derive(Debug, PartialEq, Eq)]
pub enum TenantSelection {
    /// Save the id. The warning, when present, says the listing could not be read.
    Accepted { warning: Option<String> },
    /// The listing was read and does not hold the id.
    NotListed,
}

/// The warning appended when the listing could not be read.
pub open spec fn unverified_warning(err: Seq<char>) -> Seq<char> {
    "\n(warning: could not verify against /tenants: "@ + err + ")"@
}

/// A decision as plain values: `Some(warning)` when accepted, `None` when not listed.
pub open spec fn selection_view(d: TenantSelection) -> Option<Option<Seq<char>>> {
    match d {
        TenantSelection::Accepted { warning } => Some(crate::text::opt_view(warning)),
        TenantSelection::NotListed => None,
    }
}

/// `/tenant <uuid>`: refused only when the listing was read and does not hold the id;
/// accepted with a warning when the listing could not be read.
pub open spec fn spec_tenant_selection(tid: Seq<char>, fetched: Result<Json, Seq<char>>) -> Option<
    Option<Seq<char>>,
> {
    match fetched {
        Ok(body) => if spec_listed_ids(body).contains(tid) {
            Some(None)
        } else {
            None
        },
        Err(e) => Some(Some(unverified_warning(e))),
    }
}

/// Decides `/tenant <uuid>` from what the tenant listing request gave.
pub fn tenant_selection(tid: &str, fetched: &Result<Json, String>) -> (r: TenantSelection)
    ensures
        selection_view(r) == spec_tenant_selection(tid@, crate::api::outcome_view(*fetched)),
{
    match fetched {
        Ok(body) => {
            let ids = tenant_ids_from_body(body);
            let ghost sv = strs_view(ids@);
            let mut found = false;
            let mut i: usize = 0;
            while i < ids.len() && !found
                invariant
                    i <= ids@.len(),
                    sv == strs_view(ids@),
                    found ==> sv.contains(tid@),
                    !found ==> forall|j: int| 0 <= j < i ==> sv[j] != tid@,
                decreases ids@.len() - i, if found { 0int } else { 1int },
            {
                if str_eq(ids[i].as_str(), tid) {
                    proof {
                        assert(sv[i as int] == tid@);
                    }
                    found = true;
                } else {
                    i = i + 1;
                }
            }
            if found {
                TenantSelection::Accepted { warning: None }
            } else {
                TenantSelection::NotListed
            }
        },
        Err(e) => {
            let mut v = chars_of("\n(warning: could not verify against /tenants: ");
            push_str(&mut v, e.as_str());
            push_str(&mut v, ")");
            proof {
                assert(v@ =~= unverified_warning(e@));
            }
            TenantSelection::Accepted { warning: Some(string_of(&v)) }
        },
    }
}

/// `/tenant` without argument: the current tenant, or how to set one.
pub fn current_tenant_message(current: Option<&str>) -> (r: String)
    ensures
        r@ == match current {
            Some(id) => "Current tenant:\n"@ + id@,
            None => "No current tenant set.\nUse `/tenant <uuid>` (see `/tenants`).\n`/tenant clear` unsets."@,
        },
{
    match current {
        Some(id) => {
            let mut v = chars_of("Current tenant:\n");
            push_str(&mut v, id);
            string_of(&v)
        },
        None => "No current tenant set.\nUse `/tenant <uuid>` (see `/tenants`).\n`/tenant clear` unsets.".to_owned(),
    }
}

/// The answer to `/tenant <x>` once decided: the id saved (with the warning), the id not
/// listed, or not a UUID at all.
pub fn tenant_selection_message(tid: &str, decided: &TenantSelection) -> (r: String)
    ensures
        r@ == match decided {
            TenantSelection::Accepted { warning } => "Current tenant set to:\n"@ + tid@ + match warning {
                Some(w) => w@,
                None => Seq::empty(),
            },
            TenantSelection::NotListed => "Tenant id not found in /tenants listing:\n"@ + tid@
                + "\nRun `/tenants` for ids."@,
        },
{
    match decided {
        TenantSelection::Accepted { warning } => {
            let mut v = chars_of("Current tenant set to:\n");
            push_str(&mut v, tid);
            if let Some(w) = warning {
                push_str(&mut v, w.as_str());
            }
            proof {
                assert(v@ =~= "Current tenant set to:\n"@ + tid@ + match warning {
                    Some(w) => w@,
                    None => Seq::empty(),
                });
            }
            string_of(&v)
        },
        TenantSelection::NotListed => {
            let mut v = chars_of("Tenant id not found in /tenants listing:\n");
            push_str(&mut v, tid);
            push_str(&mut v, "\nRun `/tenants` for ids.");
            string_of(&v)
        },
    }
}

/// `/tenant <x>` where `x` is not a UUID.
pub fn invalid_tenant_message(tid: &str) -> (r: String)
    ensures
        r@ == "Invalid tenant UUID `"@ + tid@
            + "`.\nExpected a value like 00000000-0000-4000-8000-000000000001."@,
{
    let mut v = chars_of("Invalid tenant UUID `");
    push_str(&mut v, tid);
    push_str(&mut v, "`.\nExpected a value like 00000000-0000-4000-8000-000000000001.");
    string_of(&v)
}

/// `/tenant` with too many arguments.
pub const TENANT_USAGE: &'static str = "Usage:\n  /tenant — show current tenant\n  /tenant <uuid> — set tenant\n  /tenant clear — unset tenant";

/// `/tenant clear`.
pub const TENANT_CLEARED: &'static str = "Current tenant cleared.";

/// `/projects` without a current tenant.
pub const NO_CURRENT_TENANT: &'static str = "No current tenant.\nUse `/tenant <uuid>` first (`/tenants` lists ids).";

/// `/status` without saved credentials.
pub const NOT_LOGGED_IN_STATUS: &'static str = "Not logged in (no credentials.json). Try /login.";

/// `/logout` after the file was removed.
pub const SIGNED_OUT: &'static str = "Signed out locally (credentials file removed).\nRun /login to sign in again.";

/// `unknown command: {word}`.
pub fn unknown_command_message(word: &str) -> (r: String)
    ensures
        r@ == "unknown command: "@ + word@,
{
    let mut v = chars_of("unknown command: ");
    push_str(&mut v, word);
    string_of(&v)
}

/// A `/status` line for a saved selection: the id, or `(none)` when absent or empty.
pub open spec fn selection_line(label: Seq<char>, id: Option<Seq<char>>) -> Seq<char> {
    "\nCurrent "@ + label + ": "@ + match id {
        Some(i) => if i.len() > 0 {
            i
        } else {
            "(none)"@
        },
        None => "(none)"@,
    }
}

fn selection_line_exec(label: &str, id: Option<&str>) -> (r: Vec<char>)
    ensures
        r@ == selection_line(label@, match id {
            Some(i) => Some(i@),
            None => None,
        }),
{
    let mut v = chars_of("\nCurrent ");
    push_str(&mut v, label);
    push_str(&mut v, ": ");
    match id {
        Some(i) => {
            let ic = chars_of(i);
            if ic.len() > 0 {
                push_chars(&mut v, &ic);
            } else {
                push_str(&mut v, "(none)");
            }
        },
        None => push_str(&mut v, "(none)"),
    }
    proof {
        assert(v@ =~= selection_line(label@, match id {
            Some(i) => Some(i@),
            None => None,
        }));
    }
    v
}

/// The `/status` lines for the saved organisation and tenant.
pub fn current_selection_lines(organization: Option<&str>, tenant: Option<&str>) -> (r: String)
    ensures
        r@ == selection_line("organization"@, match organization {
            Some(i) => Some(i@),
            None => None,
        }) + selection_line("tenant"@, match tenant {
            Some(i) => Some(i@),
            None => None,
        }),
{
    let mut v = selection_line_exec("organization", organization);
    let t = selection_line_exec("tenant", tenant);
    push_chars(&mut v, &t);
    string_of(&v)
}

} // verus!
