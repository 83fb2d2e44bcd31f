//! Styling of the session output: each line of a command's text becomes spans with a
//! role (separator, JSON key, claim key, …); the shell maps roles to colours.

use vstd::prelude::*;

use crate::api::byte_len;
use crate::text::{
    char_code, chars_of, contains, contains_seq, first_index_of, find_char, is_whitespace, is_ws,
    push_spaces, slice_chars, spaces, starts_with, starts_with_seq, string_of, trim_seq,
    trim_start_index, trim_start_seq,
};

verus! {

/// What a span is, for colouring.
#[derive(Clone, Copy, Debug, PartialEq, Eq, Structural)]
pub enum SpanRole {
    /// Section banner (separator colour, italic).
    Separator,
    /// Dimmed text: indentation, whitespace, the credentials note.
    Muted,
    /// Accent colour, bold: claim keys, `Other claims:`.
    AccentBold,
    /// Success colour, bold: the ✔ glyph.
    SuccessBold,
    /// Body text (the ok colour, or the error colour for an error block).
    Base,
    /// Error colour.
    Error,
    JsonString,
    JsonNumber,
    /// A JSON object key (accent colour).
    JsonKey,
    JsonKeyword,
    JsonPunct,
    /// Unstyled text.
    Plain,
}

/// A run of text with its role.
pub struct StyledSpan {
    pub text: String,
    pub role: SpanRole,
}

/// A span as text and role.
pub type SpanV = (Seq<char>, SpanRole);

/// A styled line as (text, role) pairs.
pub open spec fn line_view(l: Seq<StyledSpan>) -> Seq<SpanV> {
    l.map_values(|s: StyledSpan| (s.text@, s.role))
}

/// Styled lines as (text, role) pairs.
pub open spec fn lines_view(ls: Seq<Vec<StyledSpan>>) -> Seq<Seq<SpanV>> {
    ls.map_values(|l: Vec<StyledSpan>| line_view(l@))
}

fn span(cs: &[char], role: SpanRole) -> (r: StyledSpan)
    ensures
        r.text@ == cs@,
        r.role == role,
{
    StyledSpan { text: string_of(cs), role }
}

// ---------------------------------------------------------------------------
// Lines
// ---------------------------------------------------------------------------

/// A line without one trailing carriage return.
pub open spec fn strip_cr(l: Seq<char>) -> Seq<char> {
    if l.len() > 0 && l.last() == '\r' {
        l.drop_last()
    } else {
        l
    }
}

/// `str::lines` reading `s`, with the line `cur` begun and the lines `acc` done.
pub open spec fn lines_from(s: Seq<char>, cur: Seq<char>, acc: Seq<Seq<char>>) -> Seq<Seq<char>>
    decreases s.len(),
{
    if s.len() == 0 {
        if cur.len() > 0 {
            acc.push(cur)
        } else {
            acc
        }
    } else if s[0] == '\n' {
        lines_from(s.drop_first(), Seq::empty(), acc.push(strip_cr(cur)))
    } else {
        lines_from(s.drop_first(), cur.push(s[0]), acc)
    }
}

/// `str::lines`: split at `\n` (dropping a `\r` before it); no line after a final `\n`.
pub open spec fn spec_lines(s: Seq<char>) -> Seq<Seq<char>> {
    lines_from(s, Seq::empty(), Seq::empty())
}

fn strip_cr_exec(l: Vec<char>) -> (r: Vec<char>)
    ensures
        r@ == strip_cr(l@),
{
    let mut l = l;
    if l.len() > 0 && l[l.len() - 1] == '\r' {
        l.pop();
    }
    l
}

/// `str::lines`.
pub fn lines_of(s: &[char]) -> (r: Vec<Vec<char>>)
    ensures
        crate::text::vecs_view(r@) == spec_lines(s@),
{
    let mut acc: Vec<Vec<char>> = Vec::new();
    let mut cur: Vec<char> = Vec::new();
    let mut i: usize = 0;
    proof {
        assert(s@.skip(0) =~= s@);
        assert(crate::text::vecs_view(acc@) =~= Seq::<Seq<char>>::empty());
    }
    while i < s.len()
        invariant
            i <= s@.len(),
            spec_lines(s@) == lines_from(s@.skip(i as int), cur@, crate::text::vecs_view(acc@)),
        decreases s@.len() - i,
    {
        proof {
            assert(s@.skip(i as int).drop_first() =~= s@.skip(i + 1));
            assert(s@.skip(i as int)[0] == s@[i as int]);
        }
        if s[i] == '\n' {
            let done = strip_cr_exec(cur);
            cur = Vec::new();
            let ghost before = acc@;
            acc.push(done);
            proof {
                assert(crate::text::vecs_view(acc@) =~= crate::text::vecs_view(before).push(done@));
                assert(cur@ =~= Seq::<char>::empty());
            }
        } else {
            cur.push(s[i]);
        }
        i = i + 1;
    }
    if cur.len() > 0 {
        let ghost before = acc@;
        acc.push(cur);
        proof {
            assert(crate::text::vecs_view(acc@) =~= crate::text::vecs_view(before).push(cur@));
        }
    }
    proof {
        assert(s@.skip(s@.len() as int) =~= Seq::<char>::empty());
    }
    acc
}

// ---------------------------------------------------------------------------
// JSON highlighting
// ---------------------------------------------------------------------------

/// Whether `char::is_alphanumeric` holds.
pub uninterp spec fn spec_is_alphanumeric(c: char) -> bool;

/// Calls `char::is_alphanumeric` (Unicode alphabetic or numeric); the answer is named
/// [`spec_is_alphanumeric`].
#[verifier::external_body]
pub(crate) fn is_alphanumeric(c: char) -> (b: bool)
    ensures
        b == spec_is_alphanumeric(c),
{
    c.is_alphanumeric()
}

/// JSON punctuation.
pub open spec fn is_punct(c: char) -> bool {
    c == '{' || c == '}' || c == '[' || c == ']' || c == ',' || c == ':'
}

/// An ASCII digit.
pub open spec fn is_digit(c: char) -> bool {
    48 <= (c as int) <= 57
}

/// A character that continues a JSON number.
pub open spec fn is_num_char(c: char) -> bool {
    is_digit(c) || c == '.' || c == 'e' || c == 'E' || c == '+' || c == '-'
}

/// End of the whitespace run starting at `i`.
pub open spec fn ws_end(cs: Seq<char>, i: int) -> int
    decreases cs.len() - i,
{
    if 0 <= i < cs.len() && is_ws(cs[i]) {
        ws_end(cs, i + 1)
    } else {
        i
    }
}

/// End of the number characters starting at `i`.
pub open spec fn num_end(cs: Seq<char>, i: int) -> int
    decreases cs.len() - i,
{
    if 0 <= i < cs.len() && is_num_char(cs[i]) {
        num_end(cs, i + 1)
    } else {
        i
    }
}

/// Scanning a JSON string from `i` (after the opening quote): the index after the closing
/// quote, or the length when the string is not closed. A backslash skips the next character.
pub open spec fn str_end(cs: Seq<char>, i: int) -> int
    decreases cs.len() - i,
{
    if i < 0 || i >= cs.len() {
        cs.len() as int
    } else if cs[i] == '\\' {
        if i + 2 >= cs.len() {
            cs.len() as int
        } else {
            str_end(cs, i + 2)
        }
    } else if cs[i] == '"' {
        i + 1
    } else {
        str_end(cs, i + 1)
    }
}

/// A string ending at `a` is a key when the next non-whitespace character is `:`.
pub open spec fn is_key_after(cs: Seq<char>, a: int) -> bool {
    let j = ws_end(cs, a);
    0 <= j < cs.len() && cs[j] == ':'
}

/// `true`, `false` or `null` at `i`, not followed by an alphanumeric character or `_`.
pub open spec fn kw_at(cs: Seq<char>, i: int) -> Option<Seq<char>> {
    if kw_fits(cs, i, "true"@) {
        Some("true"@)
    } else if kw_fits(cs, i, "false"@) {
        Some("false"@)
    } else if kw_fits(cs, i, "null"@) {
        Some("null"@)
    } else {
        None
    }
}

/// Whether the keyword `kw` stands at `i`, not followed by a letter, digit or `_`.
pub open spec fn kw_fits(cs: Seq<char>, i: int, kw: Seq<char>) -> bool {
    let end = i + kw.len();
    &&& crate::text::occurs_at(cs, kw, i)
    &&& (end == cs.len() || !(spec_is_alphanumeric(cs[end]) || cs[end] == '_'))
}

/// The end of a whitespace run lies within the line, past its start.
pub proof fn lemma_ws_end(cs: Seq<char>, i: int)
    ensures
        ws_end(cs, i) >= i,
        i <= cs.len() ==> ws_end(cs, i) <= cs.len(),
    decreases cs.len() - i,
{
    if 0 <= i < cs.len() && is_ws(cs[i]) {
        lemma_ws_end(cs, i + 1);
    }
}

/// The end of a number lies within the line, past its start.
pub proof fn lemma_num_end(cs: Seq<char>, i: int)
    ensures
        num_end(cs, i) >= i,
        i <= cs.len() ==> num_end(cs, i) <= cs.len(),
    decreases cs.len() - i,
{
    if 0 <= i < cs.len() && is_num_char(cs[i]) {
        lemma_num_end(cs, i + 1);
    }
}

/// The end of a string lies within the line, past its start.
pub proof fn lemma_str_end(cs: Seq<char>, i: int)
    requires
        0 <= i,
    ensures
        i <= cs.len() ==> i <= str_end(cs, i) <= cs.len(),
    decreases cs.len() - i,
{
    if i < cs.len() {
        if cs[i] == '\\' {
            if i + 2 < cs.len() {
                lemma_str_end(cs, i + 2);
            }
        } else if cs[i] != '"' {
            lemma_str_end(cs, i + 1);
        }
    }
}

/// Spans of a JSON-looking line from position `i` on.
pub open spec fn json_spans(cs: Seq<char>, i: int) -> Seq<SpanV>
    decreases cs.len() - i,
{
    if i < 0 || i >= cs.len() {
        Seq::empty()
    } else {
        let c = cs[i];
        if is_ws(c) {
            let e = ws_end(cs, i);
            proof {
                lemma_ws_end(cs, i + 1);
            }
            seq![(cs.subrange(i, e), SpanRole::Muted)] + json_spans(cs, e)
        } else if is_punct(c) {
            seq![(seq![c], SpanRole::JsonPunct)] + json_spans(cs, i + 1)
        } else if c == '"' {
            let a = str_end(cs, i + 1);
            proof {
                lemma_str_end(cs, i + 1);
            }
            seq![
                (
                    cs.subrange(i, a),
                    if is_key_after(cs, a) {
                        SpanRole::JsonKey
                    } else {
                        SpanRole::JsonString
                    },
                ),
            ] + json_spans(cs, a)
        } else if c == '-' || is_digit(c) {
            let e = num_end(cs, i + 1);
            proof {
                lemma_num_end(cs, i + 1);
            }
            seq![(cs.subrange(i, e), SpanRole::JsonNumber)] + json_spans(cs, e)
        } else {
            proof {
                reveal_strlit("true");
                reveal_strlit("false");
                reveal_strlit("null");
            }
            match kw_at(cs, i) {
                Some(k) => seq![(k, SpanRole::JsonKeyword)] + json_spans(cs, i + k.len()),
                None => seq![(seq![c], SpanRole::JsonPunct)] + json_spans(cs, i + 1),
            }
        }
    }
}

/// A JSON-looking line: its spans, or a single empty unstyled span for an empty line.
pub open spec fn spec_json_line(cs: Seq<char>) -> Seq<SpanV> {
    if cs.len() == 0 {
        seq![(Seq::empty(), SpanRole::Plain)]
    } else {
        json_spans(cs, 0)
    }
}

/// Each JSON literal `true`, `false` and `null` that stands at `i` and ends at a word
/// boundary is recognised as itself, and the line's spans from `i` start with that
/// literal as one keyword span.
pub proof fn law_json_literals_are_keywords(cs: Seq<char>, i: int, k: Seq<char>)
    requires
        k == "true"@ || k == "false"@ || k == "null"@,
        kw_fits(cs, i, k),
    ensures
        kw_at(cs, i) == Some(k),
        json_spans(cs, i).len() > 0,
        json_spans(cs, i)[0] == (k, SpanRole::JsonKeyword),
{
    reveal_strlit("true");
    reveal_strlit("false");
    reveal_strlit("null");
    assert(crate::text::occurs_at(cs, k, i));
    assert(cs.subrange(i, i + k.len())[0] == k[0]);
    assert(cs[i] == k[0]);
    if k == "true"@ {
        assert(cs[i] == 't');
    } else if k == "false"@ {
        assert(cs[i] == 'f');
        if kw_fits(cs, i, "true"@) {
            assert(cs.subrange(i, i + 4)[0] == 't');
        }
    } else {
        assert(cs[i] == 'n');
        if kw_fits(cs, i, "true"@) {
            assert(cs.subrange(i, i + 4)[0] == 't');
        }
        if kw_fits(cs, i, "false"@) {
            assert(cs.subrange(i, i + 5)[0] == 'f');
        }
    }
    assert(kw_at(cs, i) == Some(k));
    let c = cs[i];
    assert(!is_ws(c) && !is_punct(c) && c != '"' && c != '-' && !is_digit(c));
    assert(json_spans(cs, i) == seq![(k, SpanRole::JsonKeyword)] + json_spans(cs, i + k.len()));
}

/// A keyword is recognised only as one of `true`, `false` and `null`, standing at `i` in
/// full and not followed by a letter, digit or `_`.
pub proof fn law_keywords_are_whole_literals(cs: Seq<char>, i: int)
    ensures
        kw_at(cs, i) matches Some(k) ==> {
            &&& (k == "true"@ || k == "false"@ || k == "null"@)
            &&& 0 <= i && i + k.len() <= cs.len()
            &&& cs.subrange(i, i + k.len()) == k
            &&& (i + k.len() == cs.len() || !(spec_is_alphanumeric(cs[i + k.len()]) || cs[i + k.len()] == '_'))
        },
{
}

/// The text of a styled line: its spans' texts, in order.
pub open spec fn spans_text(sp: Seq<SpanV>) -> Seq<char>
    decreases sp.len(),
{
    if sp.len() == 0 {
        Seq::empty()
    } else {
        sp[0].0 + spans_text(sp.drop_first())
    }
}

proof fn lemma_spans_text_cons(h: SpanV, t: Seq<SpanV>)
    ensures
        spans_text(seq![h] + t) == h.0 + spans_text(t),
{
    assert((seq![h] + t).drop_first() =~= t);
}

/// The spans of a JSON-looking line from `i` on hold exactly the rest of the line.
pub proof fn lemma_json_spans_text(cs: Seq<char>, i: int)
    requires
        0 <= i <= cs.len(),
    ensures
        spans_text(json_spans(cs, i)) == cs.subrange(i, cs.len() as int),
    decreases cs.len() - i,
{
    if i == cs.len() {
        assert(cs.subrange(i, cs.len() as int) =~= Seq::<char>::empty());
    } else {
        let c = cs[i];
        let n = cs.len() as int;
        if is_ws(c) {
            let e = ws_end(cs, i);
            lemma_ws_end(cs, i + 1);
            lemma_json_spans_text(cs, e);
            lemma_spans_text_cons((cs.subrange(i, e), SpanRole::Muted), json_spans(cs, e));
            assert(cs.subrange(i, e) + cs.subrange(e, n) =~= cs.subrange(i, n));
        } else if is_punct(c) {
            lemma_json_spans_text(cs, i + 1);
            lemma_spans_text_cons((seq![c], SpanRole::JsonPunct), json_spans(cs, i + 1));
            assert(seq![c] + cs.subrange(i + 1, n) =~= cs.subrange(i, n));
        } else if c == '"' {
            let a = str_end(cs, i + 1);
            lemma_str_end(cs, i + 1);
            let role = if is_key_after(cs, a) {
                SpanRole::JsonKey
            } else {
                SpanRole::JsonString
            };
            lemma_json_spans_text(cs, a);
            lemma_spans_text_cons((cs.subrange(i, a), role), json_spans(cs, a));
            assert(cs.subrange(i, a) + cs.subrange(a, n) =~= cs.subrange(i, n));
        } else if c == '-' || is_digit(c) {
            let e = num_end(cs, i + 1);
            lemma_num_end(cs, i + 1);
            lemma_json_spans_text(cs, e);
            lemma_spans_text_cons((cs.subrange(i, e), SpanRole::JsonNumber), json_spans(cs, e));
            assert(cs.subrange(i, e) + cs.subrange(e, n) =~= cs.subrange(i, n));
        } else {
            reveal_strlit("true");
            reveal_strlit("false");
            reveal_strlit("null");
            match kw_at(cs, i) {
                Some(k) => {
                    assert(crate::text::occurs_at(cs, k, i));
                    lemma_json_spans_text(cs, i + k.len());
                    lemma_spans_text_cons((k, SpanRole::JsonKeyword), json_spans(cs, i + k.len()));
                    assert(k + cs.subrange(i + k.len(), n) =~= cs.subrange(i, n));
                },
                None => {
                    lemma_json_spans_text(cs, i + 1);
                    lemma_spans_text_cons((seq![c], SpanRole::JsonPunct), json_spans(cs, i + 1));
                    assert(seq![c] + cs.subrange(i + 1, n) =~= cs.subrange(i, n));
                },
            }
        }
    }
}

/// Highlighting a JSON-looking line neither drops, repeats nor reorders characters: the
/// spans' texts, concatenated, give back the line.
pub proof fn law_json_line_spans_concatenate(cs: Seq<char>)
    ensures
        spans_text(spec_json_line(cs)) == cs,
{
    if cs.len() == 0 {
        lemma_spans_text_cons((Seq::empty(), SpanRole::Plain), Seq::empty());
        assert(spans_text(Seq::<SpanV>::empty()) == Seq::<char>::empty());
        assert(seq![(Seq::<char>::empty(), SpanRole::Plain)] =~= seq![(Seq::<char>::empty(), SpanRole::Plain)] + Seq::<SpanV>::empty());
    } else {
        lemma_json_spans_text(cs, 0);
        assert(cs.subrange(0, cs.len() as int) =~= cs);
    }
}

fn ws_end_exec(cs: &[char], i: usize) -> (e: usize)
    requires
        i <= cs@.len(),
    ensures
        e == ws_end(cs@, i as int),
        i <= e <= cs@.len(),
{
    let mut j = i;
    while j < cs.len() && is_whitespace(cs[j])
        invariant
            i <= j <= cs@.len(),
            ws_end(cs@, i as int) == ws_end(cs@, j as int),
        decreases cs@.len() - j,
    {
        j = j + 1;
    }
    j
}

fn num_end_exec(cs: &[char], i: usize) -> (e: usize)
    requires
        i <= cs@.len(),
    ensures
        e == num_end(cs@, i as int),
        i <= e <= cs@.len(),
{
    let mut j = i;
    while j < cs.len() && is_num_char_exec(cs[j])
        invariant
            i <= j <= cs@.len(),
            num_end(cs@, i as int) == num_end(cs@, j as int),
        decreases cs@.len() - j,
    {
        j = j + 1;
    }
    j
}

fn is_num_char_exec(c: char) -> (b: bool)
    ensures
        b == is_num_char(c),
{
    let u = char_code(c);
    (48 <= u && u <= 57) || c == '.' || c == 'e' || c == 'E' || c == '+' || c == '-'
}

fn str_end_exec(cs: &[char], i: usize) -> (e: usize)
    requires
        i <= cs@.len(),
    ensures
        e == str_end(cs@, i as int),
        i <= e <= cs@.len(),
{
    let mut j = i;
    while j < cs.len()
        invariant
            i <= j <= cs@.len(),
            str_end(cs@, i as int) == str_end(cs@, j as int),
        decreases cs@.len() - j,
    {
        if cs[j] == '\\' {
            if cs.len() - j <= 2 {
                return cs.len();
            }
            j = j + 2;
        } else if cs[j] == '"' {
            return j + 1;
        } else {
            j = j + 1;
        }
    }
    j
}

fn kw_fits_exec(cs: &[char], i: usize, kw: &str) -> (b: bool)
    ensures
        b == kw_fits(cs@, i as int, kw@),
{
    let k = chars_of(kw);
    if !crate::text::occurs_at_exec(cs, &k, i) {
        return false;
    }
    let n = cs.len();
    proof {
        assert(i + k@.len() <= cs@.len());
        assert(n == cs@.len());
    }
    let end = i + k.len();
    end == cs.len() || !(is_alphanumeric(cs[end]) || cs[end] == '_')
}

fn kw_at_exec(cs: &[char], i: usize) -> (r: Option<&'static str>)
    ensures
        match kw_at(cs@, i as int) {
            Some(k) => r matches Some(x) && x@ == k,
            None => r is None,
        },
{
    if kw_fits_exec(cs, i, "true") {
        Some("true")
    } else if kw_fits_exec(cs, i, "false") {
        Some("false")
    } else if kw_fits_exec(cs, i, "null") {
        Some("null")
    } else {
        None
    }
}

/// Highlights a line of pretty-printed JSON.
pub fn highlight_json_line(cs: &[char]) -> (r: Vec<StyledSpan>)
    ensures
        line_view(r@) == spec_json_line(cs@),
{
    let mut out: Vec<StyledSpan> = Vec::new();
    let mut i: usize = 0;
    while i < cs.len()
        invariant
            i <= cs@.len(),
            line_view(out@) + json_spans(cs@, i as int) == json_spans(cs@, 0),
        decreases cs@.len() - i,
    {
        let c = cs[i];
        let ghost before = out@;
        let next: usize;
        if is_whitespace(c) {
            let e = ws_end_exec(cs, i);
            out.push(span(&slice_chars(cs, i, e), SpanRole::Muted));
            next = e;
        } else if c == '{' || c == '}' || c == '[' || c == ']' || c == ',' || c == ':' {
            out.push(span(&slice_chars(cs, i, i + 1), SpanRole::JsonPunct));
            proof {
                assert(cs@.subrange(i as int, i + 1) =~= seq![c]);
            }
            next = i + 1;
        } else if c == '"' {
            let a = str_end_exec(cs, i + 1);
            let j = ws_end_exec(cs, a);
            let is_key = j < cs.len() && cs[j] == ':';
            out.push(span(&slice_chars(cs, i, a), if is_key { SpanRole::JsonKey } else { SpanRole::JsonString }));
            next = a;
        } else if c == '-' || (48 <= char_code(c) && char_code(c) <= 57) {
            let e = num_end_exec(cs, i + 1);
            out.push(span(&slice_chars(cs, i, e), SpanRole::JsonNumber));
            next = e;
        } else {
            match kw_at_exec(cs, i) {
                Some(k) => {
                    let kc = chars_of(k);
                    out.push(span(&kc, SpanRole::JsonKeyword));
                    next = i + kc.len();
                    proof {
                        assert(crate::text::occurs_at(cs@, k@, i as int));
                    }
                },
                None => {
                    out.push(span(&slice_chars(cs, i, i + 1), SpanRole::JsonPunct));
                    proof {
                        assert(cs@.subrange(i as int, i + 1) =~= seq![c]);
                    }
                    next = i + 1;
                },
            }
        }
        proof {
            assert(line_view(out@) =~= line_view(before).push(line_view(out@).last()));
            assert(json_spans(cs@, i as int) =~= seq![line_view(out@).last()] + json_spans(cs@, next as int));
        }
        i = next;
    }
    if out.len() == 0 {
        let e: Vec<char> = Vec::new();
        out.push(span(&e, SpanRole::Plain));
        proof {
            assert(line_view(out@) =~= seq![(Seq::<char>::empty(), SpanRole::Plain)]);
        }
    } else {
        proof {
            assert(line_view(out@) =~= json_spans(cs@, 0));
        }
    }
    out
}

// ---------------------------------------------------------------------------
// Claim lines and plain lines
// ---------------------------------------------------------------------------

/// The leading whitespace of a line.
pub open spec fn spec_indent(full: Seq<char>) -> Seq<char> {
    full.take(full.len() - trim_start_seq(full).len())
}

/// `key:` in accent bold, the spaces after it dimmed, the rest as body text; a line
/// without `:` is body text.
pub open spec fn spec_kv(t: Seq<char>) -> Seq<SpanV> {
    match first_index_of(t, ':') {
        None => seq![(t, SpanRole::Base)],
        Some(pi) => {
            let a = pi + 1;
            let se = ws_end(t, a);
            seq![
                (t.subrange(0, a), SpanRole::AccentBold),
                (t.subrange(a, se), SpanRole::Muted),
                (t.subrange(se, t.len() as int), SpanRole::Base),
            ]
        },
    }
}

/// A trimmed claim line that is a piece of JSON.
pub open spec fn looks_like_json_piece(t: Seq<char>) -> bool {
    ||| (t.len() > 0 && (t[0] == '{' || t[0] == '}' || t[0] == '[' || t[0] == ']' || t[0] == '"'
        || t[0] == '\'' || is_digit(t[0]) || t[0] == '-'))
    ||| starts_with_seq(t, "null"@)
    ||| starts_with_seq(t, "true"@)
    ||| starts_with_seq(t, "false"@)
}

/// A line of decoded token claims.
pub open spec fn spec_claims_line(full: Seq<char>) -> Seq<SpanV> {
    let t = trim_start_seq(full);
    let ind = spec_indent(full);
    let lead: Seq<SpanV> = if ind.len() > 0 {
        seq![(ind, SpanRole::Muted)]
    } else {
        Seq::empty()
    };
    if looks_like_json_piece(t) {
        lead + spec_json_line(t)
    } else if starts_with_seq(t, "Other claims:"@) {
        lead + seq![(t, SpanRole::AccentBold)]
    } else {
        lead + spec_kv(t)
    }
}

/// A line outside any section: a leading ✔ (with up to 16 following spaces, counted in
/// bytes of the whitespace after it) in success bold, then the rest; otherwise body text.
pub open spec fn spec_neutral_line(line: Seq<char>) -> Seq<SpanV> {
    if line.len() > 0 && line[0] == '\u{2714}' {
        let after = line.drop_first();
        let at = trim_start_seq(after);
        let sp = byte_len(after) - byte_len(at);
        let n: nat = if sp < 16 {
            sp as nat
        } else {
            16
        };
        seq![(seq!['\u{2714}'] + spaces(n), SpanRole::SuccessBold), (at, SpanRole::Base)]
    } else {
        seq![(line, SpanRole::Base)]
    }
}

fn kv_spans(t: &[char]) -> (r: Vec<StyledSpan>)
    ensures
        line_view(r@) == spec_kv(t@),
{
    let mut out: Vec<StyledSpan> = Vec::new();
    match find_char(t, ':') {
        None => {
            out.push(span(t, SpanRole::Base));
            proof {
                assert(line_view(out@) =~= spec_kv(t@));
            }
        },
        Some(pi) => {
            let n = t.len();
            proof {
                assert(pi < n);
            }
            let a = pi + 1;
            let se = ws_end_exec(t, a);
            out.push(span(&slice_chars(t, 0, a), SpanRole::AccentBold));
            out.push(span(&slice_chars(t, a, se), SpanRole::Muted));
            out.push(span(&slice_chars(t, se, t.len()), SpanRole::Base));
            proof {
                assert(line_view(out@) =~= spec_kv(t@));
            }
        },
    }
    out
}

fn starts_with_lit(s: &[char], lit: &str) -> (b: bool)
    ensures
        b == starts_with_seq(s@, lit@),
{
    let l = chars_of(lit);
    starts_with(s, &l)
}

fn contains_lit(s: &[char], lit: &str) -> (b: bool)
    ensures
        b == contains_seq(s@, lit@),
{
    let l = chars_of(lit);
    contains(s, &l)
}

fn looks_like_json_piece_exec(t: &[char]) -> (b: bool)
    ensures
        b == looks_like_json_piece(t@),
{
    let first_ok = if t.len() > 0 {
        let c = t[0];
        let u = char_code(c);
        c == '{' || c == '}' || c == '[' || c == ']' || c == '"' || c == '\'' || (48 <= u && u <= 57)
            || c == '-'
    } else {
        false
    };
    first_ok || starts_with_lit(t, "null") || starts_with_lit(t, "true") || starts_with_lit(t, "false")
}

fn claims_line(full: &[char]) -> (r: Vec<StyledSpan>)
    ensures
        line_view(r@) == spec_claims_line(full@),
{
    let k = trim_start_index(full);
    let t = slice_chars(full, k, full.len());
    let ind = slice_chars(full, 0, k);
    proof {
        assert(ind@ =~= spec_indent(full@));
    }
    let mut out: Vec<StyledSpan> = Vec::new();
    if ind.len() > 0 {
        out.push(span(&ind, SpanRole::Muted));
    }
    let ghost lead = line_view(out@);
    proof {
        if ind@.len() > 0 {
            assert(lead =~= seq![(ind@, SpanRole::Muted)]);
        } else {
            assert(lead =~= Seq::<SpanV>::empty());
        }
    }
    let body: Vec<StyledSpan> = if looks_like_json_piece_exec(&t) {
        highlight_json_line(&t)
    } else if starts_with_lit(&t, "Other claims:") {
        let mut b: Vec<StyledSpan> = Vec::new();
        b.push(span(&t, SpanRole::AccentBold));
        proof {
            assert(line_view(b@) =~= seq![(t@, SpanRole::AccentBold)]);
        }
        b
    } else {
        kv_spans(&t)
    };
    let mut body = body;
    let ghost bv = line_view(body@);
    out.append(&mut body);
    proof {
        assert(line_view(out@) =~= lead + bv);
    }
    out
}

fn neutral_line(line: &[char]) -> (r: Vec<StyledSpan>)
    ensures
        line_view(r@) == spec_neutral_line(line@),
{
    let mut out: Vec<StyledSpan> = Vec::new();
    if line.len() > 0 && line[0] == '\u{2714}' {
        let after = slice_chars(line, 1, line.len());
        let k = trim_start_index(&after);
        let at = slice_chars(&after, k, after.len());
        let ws = slice_chars(&after, 0, k);
        let sp = crate::api::byte_len_of(&ws);
        proof {
            assert(after@ =~= line@.drop_first());
            assert(after@ =~= ws@ + at@);
            crate::api::lemma_byte_len_concat(ws@, at@);
        }
        let n: usize = if sp < 16 {
            sp as usize
        } else {
            16
        };
        let mut head: Vec<char> = Vec::new();
        head.push('\u{2714}');
        push_spaces(&mut head, n);
        out.push(span(&head, SpanRole::SuccessBold));
        out.push(span(&at, SpanRole::Base));
        proof {
            assert(head@ =~= seq!['\u{2714}'] + spaces(n as nat));
            assert(line_view(out@) =~= spec_neutral_line(line@));
        }
    } else {
        out.push(span(line, SpanRole::Base));
        proof {
            assert(line_view(out@) =~= spec_neutral_line(line@));
        }
    }
    out
}

// ---------------------------------------------------------------------------
// Whole outputs
// ---------------------------------------------------------------------------

/// The section a line belongs to.
#[derive(Clone, Copy, Debug, PartialEq, Eq, Structural)]
pub enum DocBlock {
    Neutral,
    /// Pretty-printed JSON after a REST section banner.
    ApiJsonBody,
    /// Decoded access-token claims.
    AccessTokenClaims,
}

/// A REST section banner that is followed by JSON.
pub open spec fn spec_opens_json(line: Seq<char>) -> bool {
    let t = trim_start_seq(line);
    ||| starts_with_seq(t, "── Identity ("@)
    ||| starts_with_seq(t, "── Tenants ("@)
    ||| starts_with_seq(t, "── Organizations ("@)
    ||| starts_with_seq(t, "── Projects ("@)
}

/// The banner of the decoded access-token claims.
pub open spec fn opens_claims(line: Seq<char>) -> bool {
    starts_with_seq(
        trim_start_seq(line),
        "── Access token payload (decoded locally · signature NOT verified"@,
    )
}

/// A claims line that reports a decoding failure.
pub open spec fn is_decode_error(line: Seq<char>) -> bool {
    starts_with_seq(trim_start_seq(line), "(could not decode access token locally)"@) || (
    starts_with_seq(line, "    "@) && contains_seq(line, "could not decode"@))
}

/// One line: the section after it and its spans.
pub open spec fn spec_step(block: DocBlock, line: Seq<char>) -> (DocBlock, Seq<SpanV>) {
    if spec_opens_json(line) {
        (DocBlock::ApiJsonBody, seq![(line, SpanRole::Separator)])
    } else if opens_claims(line) {
        (DocBlock::AccessTokenClaims, seq![(line, SpanRole::Separator)])
    } else if starts_with_seq(line, "credentials file:"@) {
        (block, seq![(line, SpanRole::Muted)])
    } else if block == DocBlock::ApiJsonBody && trim_seq(line).len() == 0 {
        (DocBlock::Neutral, Seq::empty())
    } else {
        match block {
            DocBlock::ApiJsonBody => (block, spec_json_line(line)),
            DocBlock::AccessTokenClaims => (
                block,
                if is_decode_error(line) {
                    seq![(line, SpanRole::Error)]
                } else {
                    spec_claims_line(line)
                },
            ),
            DocBlock::Neutral => (block, spec_neutral_line(line)),
        }
    }
}

/// Styles the lines in order, starting in section `block`.
pub open spec fn styled_from(lines: Seq<Seq<char>>, block: DocBlock) -> Seq<Seq<SpanV>>
    decreases lines.len(),
{
    if lines.len() == 0 {
        Seq::empty()
    } else {
        let (b, l) = spec_step(block, lines[0]);
        seq![l] + styled_from(lines.drop_first(), b)
    }
}

/// The styled lines of a command's output.
pub open spec fn spec_styled(text: Seq<char>) -> Seq<Seq<SpanV>> {
    styled_from(spec_lines(text), DocBlock::Neutral)
}

fn opens_json_exec(line: &[char]) -> (b: bool)
    ensures
        b == spec_opens_json(line@),
{
    let k = trim_start_index(line);
    let t = slice_chars(line, k, line.len());
    starts_with_lit(&t, "── Identity (") || starts_with_lit(&t, "── Tenants (") || starts_with_lit(
        &t,
        "── Organizations (",
    ) || starts_with_lit(&t, "── Projects (")
}

fn step(block: DocBlock, line: &[char]) -> (r: (DocBlock, Vec<StyledSpan>))
    ensures
        (r.0, line_view(r.1@)) == spec_step(block, line@),
{
    let k = trim_start_index(line);
    let t = slice_chars(line, k, line.len());
    let mut out: Vec<StyledSpan> = Vec::new();
    if opens_json_exec(line) {
        out.push(span(line, SpanRole::Separator));
        proof {
            assert(line_view(out@) =~= seq![(line@, SpanRole::Separator)]);
        }
        return (DocBlock::ApiJsonBody, out);
    }
    if starts_with_lit(&t, "── Access token payload (decoded locally · signature NOT verified") {
        out.push(span(line, SpanRole::Separator));
        proof {
            assert(line_view(out@) =~= seq![(line@, SpanRole::Separator)]);
        }
        return (DocBlock::AccessTokenClaims, out);
    }
    if starts_with_lit(line, "credentials file:") {
        out.push(span(line, SpanRole::Muted));
        proof {
            assert(line_view(out@) =~= seq![(line@, SpanRole::Muted)]);
        }
        return (block, out);
    }
    if block == DocBlock::ApiJsonBody {
        let tt = crate::text::trim_chars(line);
        if tt.len() == 0 {
            proof {
                assert(line_view(out@) =~= Seq::<SpanV>::empty());
            }
            return (DocBlock::Neutral, out);
        }
    }
    match block {
        DocBlock::ApiJsonBody => (block, highlight_json_line(line)),
        DocBlock::AccessTokenClaims => {
            let err = starts_with_lit(&t, "(could not decode access token locally)") || (
            starts_with_lit(line, "    ") && contains_lit(line, "could not decode"));
            if err {
                out.push(span(line, SpanRole::Error));
                proof {
                    assert(line_view(out@) =~= seq![(line@, SpanRole::Error)]);
                }
                (block, out)
            } else {
                (block, claims_line(line))
            }
        },
        DocBlock::Neutral => (block, neutral_line(line)),
    }
}

/// Styles a command's output for the session pane.
pub fn styled_status_lines(text: &str) -> (r: Vec<Vec<StyledSpan>>)
    ensures
        lines_view(r@) == spec_styled(text@),
{
    let cs = chars_of(text);
    let lines = lines_of(&cs);
    proof {
        lemma_lines_short(cs@);
    }
    let ghost lv = crate::text::vecs_view(lines@);
    let mut out: Vec<Vec<StyledSpan>> = Vec::new();
    let mut block = DocBlock::Neutral;
    let mut k: usize = 0;
    proof {
        assert(lv.skip(0) =~= lv);
    }
    while k < lines.len()
        invariant
            k <= lines@.len(),
            lv == crate::text::vecs_view(lines@),
            lv == spec_lines(cs@),
            forall|m: int| 0 <= m < lv.len() ==> (#[trigger] lv[m]).len() <= cs@.len(),
            lines_view(out@) + styled_from(lv.skip(k as int), block) == spec_styled(text@),
        decreases lines@.len() - k,
    {
        proof {
            assert(lv[k as int] == lines@[k as int]@);
        }
        let (b, l) = step(block, &lines[k]);
        let ghost before = out@;
        out.push(l);
        proof {
            assert(lv.skip(k as int).drop_first() =~= lv.skip(k + 1));
            assert(lv.skip(k as int)[0] == lv[k as int]);
            assert(lines_view(out@) =~= lines_view(before).push(line_view(l@)));
        }
        block = b;
        k = k + 1;
    }
    proof {
        assert(lv.skip(lines@.len() as int) =~= Seq::<Seq<char>>::empty());
        assert(lines_view(out@) + Seq::<Seq<SpanV>>::empty() =~= lines_view(out@));
    }
    out
}

proof fn lemma_lines_from_short(s: Seq<char>, cur: Seq<char>, acc: Seq<Seq<char>>, bound: nat)
    requires
        cur.len() + s.len() <= bound,
        forall|m: int| 0 <= m < acc.len() ==> (#[trigger] acc[m]).len() <= bound,
    ensures
        forall|m: int|
            0 <= m < lines_from(s, cur, acc).len() ==> (#[trigger] lines_from(s, cur, acc)[m]).len()
                <= bound,
    decreases s.len(),
{
    if s.len() > 0 {
        if s[0] == '\n' {
            let c = strip_cr(cur);
            assert(c.len() <= cur.len());
            assert(lines_from(s, cur, acc) == lines_from(s.drop_first(), Seq::empty(), acc.push(c)));
            assert forall|m: int| 0 <= m < acc.push(c).len() implies (#[trigger] acc.push(c)[m]).len() <= bound by {
                if m < acc.len() {
                    assert(acc.push(c)[m] == acc[m]);
                }
            }
            lemma_lines_from_short(s.drop_first(), Seq::empty(), acc.push(c), bound);
        } else {
            assert(lines_from(s, cur, acc) == lines_from(s.drop_first(), cur.push(s[0]), acc));
            lemma_lines_from_short(s.drop_first(), cur.push(s[0]), acc, bound);
        }
    } else {
        assert forall|m: int| 0 <= m < acc.push(cur).len() implies (#[trigger] acc.push(cur)[m]).len() <= bound by {
            if m < acc.len() {
                assert(acc.push(cur)[m] == acc[m]);
            }
        }
    }
}

/// No line is longer than the text.
proof fn lemma_lines_short(s: Seq<char>)
    ensures
        forall|m: int| 0 <= m < spec_lines(s).len() ==> (#[trigger] spec_lines(s)[m]).len() <= s.len(),
{
    lemma_lines_from_short(s, Seq::empty(), Seq::empty(), s.len());
}

} // verus!
