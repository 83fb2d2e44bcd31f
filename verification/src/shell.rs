//! Small text rules of the terminal shell: scrolling, row labels, truncation to a display
//! width, listing titles and the `/whoami` pane text.

use vstd::prelude::*;

use crate::tenants::TenantRow;
use crate::text::{
    chars_eq, chars_of, decimal, opt_view, push_chars, push_decimal, push_str, string_of,
    trim_chars, trim_seq,
};

verus! {

/// Rows scrolled per mouse-wheel notch: a fifth of the viewport height, at least one.
pub open spec fn spec_wheel_scroll_lines(viewport_h: u16) -> u16 {
    let h = if viewport_h < 1 { 1u16 } else { viewport_h };
    if h / 5 < 1 { 1u16 } else { (h / 5) as u16 }
}

/// Rows scrolled per mouse-wheel notch for a viewport of `viewport_h` rows.
pub fn wheel_scroll_lines(viewport_h: u16) -> (r: u16)
    ensures
        r == spec_wheel_scroll_lines(viewport_h),
{
    let h = if viewport_h < 1 { 1 } else { viewport_h };
    if h / 5 < 1 { 1 } else { h / 5 }
}

/// A tenant's label: `name (id)` when it has a non-blank name other than its id, else
/// the id.
pub open spec fn spec_tenant_row_primary(id: Seq<char>, name: Option<Seq<char>>) -> Seq<char> {
    match name {
        Some(n) => {
            let nt = trim_seq(n);
            if nt.len() > 0 && nt != id {
                nt + " ("@ + id + ")"@
            } else {
                id
            }
        },
        None => id,
    }
}

/// A tenant's label in lists.
pub fn tenant_row_primary(t: &TenantRow) -> (r: String)
    ensures
        r@ == spec_tenant_row_primary(t.id@, opt_view(t.name)),
{
    if let Some(n) = &t.name {
        let nc = chars_of(n.as_str());
        let nt = trim_chars(&nc);
        let idc = chars_of(t.id.as_str());
        if nt.len() > 0 && !chars_eq(&nt, &idc) {
            let mut v = nt;
            push_str(&mut v, " (");
            push_chars(&mut v, &idc);
            push_str(&mut v, ")");
            return string_of(&v);
        }
    }
    t.id.clone()
}

/// What `UnicodeWidthStr::width` of the `unicode-width` crate gives for the text
/// (display columns).
pub uninterp spec fn spec_str_width(s: Seq<char>) -> nat;

/// Calls `UnicodeWidthStr::width`; the columns are named [`spec_str_width`].
#[verifier::external_body]
fn str_width(s: &str) -> (r: usize)
    ensures
        r == spec_str_width(s@),
{
    unicode_width::UnicodeWidthStr::width(s)
}

/// The longest prefix, grown a character at a time from `s.take(k)`, whose width stays
/// within `lim` columns.
pub open spec fn vis_prefix(s: Seq<char>, k: nat, lim: nat) -> Seq<char>
    decreases s.len() - k,
{
    if k < s.len() && spec_str_width(s.take((k + 1) as int)) <= lim {
        vis_prefix(s, k + 1, lim)
    } else {
        s.take(k as int)
    }
}

/// A text cut to `max_cols` display columns: kept when it fits, else the prefix that fits
/// in `max_cols - 1` columns followed by `…`.
pub open spec fn spec_truncate_vis(s: Seq<char>, max_cols: nat) -> Seq<char> {
    if spec_str_width(s) <= max_cols {
        s
    } else {
        vis_prefix(s, 0, if max_cols >= 1 { (max_cols - 1) as nat } else { 0 }) + "…"@
    }
}

/// Cuts `s` to `max_cols` display columns.
pub fn truncate_vis(s: &str, max_cols: usize) -> (r: String)
    ensures
        r@ == spec_truncate_vis(s@, max_cols as nat),
{
    if str_width(s) <= max_cols {
        return s.to_owned();
    }
    let lim: usize = if max_cols >= 1 { max_cols - 1 } else { 0 };
    let cs = chars_of(s);
    let mut acc: Vec<char> = Vec::new();
    let mut k: usize = 0;
    let mut stop = false;
    while !stop && k < cs.len()
        invariant
            k <= cs@.len(),
            cs@ == s@,
            acc@ == cs@.take(k as int),
            vis_prefix(s@, 0, lim as nat) == vis_prefix(s@, k as nat, lim as nat),
            stop ==> k < cs@.len() && spec_str_width(s@.take(k + 1)) > lim,
        decreases cs@.len() - k, if stop { 0int } else { 1int },
    {
        let mut next = acc.clone();
        next.push(cs[k]);
        let ns = string_of(&next);
        proof {
            assert(next@ =~= cs@.take(k + 1));
        }
        if str_width(ns.as_str()) > lim {
            stop = true;
        } else {
            acc = next;
            k = k + 1;
        }
    }
    proof {
        assert(vis_prefix(s@, k as nat, lim as nat) == cs@.take(k as int));
    }
    push_str(&mut acc, "…");
    string_of(&acc)
}

/// Spaces appended while the width is below `target`, at most `fuel` of them.
pub open spec fn pad_to_width(t: Seq<char>, target: nat, fuel: nat) -> Seq<char>
    decreases fuel,
{
    if fuel == 0 || spec_str_width(t) >= target {
        t
    } else {
        pad_to_width(t.push(' '), target, (fuel - 1) as nat)
    }
}

/// A text cut to `target` columns, then padded with spaces to `target` columns (each space
/// adds a column, so `target` spaces are always enough).
pub open spec fn spec_truncate_pad(s: Seq<char>, target: nat) -> Seq<char> {
    pad_to_width(spec_truncate_vis(s, target), target, target)
}

/// Cuts `s` to `target` display columns and pads it to exactly that width.
pub fn truncate_pad(s: &str, target: usize) -> (r: String)
    ensures
        r@ == spec_truncate_pad(s@, target as nat),
{
    let t0 = truncate_vis(s, target);
    let mut t = chars_of(t0.as_str());
    let mut fuel: usize = target;
    let mut full = false;
    while !full && fuel > 0
        invariant
            fuel <= target,
            pad_to_width(t0@, target as nat, target as nat) == pad_to_width(t@, target as nat, fuel as nat),
            full ==> spec_str_width(t@) >= target,
        decreases fuel, if full { 0int } else { 1int },
    {
        let ts = string_of(&t);
        if str_width(ts.as_str()) >= target {
            full = true;
        } else {
            t.push(' ');
            fuel = fuel - 1;
        }
    }
    string_of(&t)
}

// ---------------------------------------------------------------------------
// Listing titles and footers
// ---------------------------------------------------------------------------

/// The text of an optional borrowed string.
pub open spec fn opt_ref_view(o: Option<&String>) -> Option<Seq<char>> {
    match o {
        Some(s) => Some(s@),
        None => None,
    }
}

/// The credentials note trimmed, when anything is left of it.
pub open spec fn spec_trimmed_note(note: Option<Seq<char>>) -> Option<Seq<char>> {
    match note {
        Some(n) => if trim_seq(n).len() > 0 {
            Some(trim_seq(n))
        } else {
            None
        },
        None => None,
    }
}

/// The credentials note trimmed, `None` when absent or blank.
pub fn trimmed_credentials_note(note: Option<&String>) -> (r: Option<String>)
    ensures
        opt_view(r) == spec_trimmed_note(opt_ref_view(note)),
{
    match note {
        Some(n) => {
            let nc = chars_of(n.as_str());
            let t = trim_chars(&nc);
            if t.len() > 0 {
                Some(string_of(&t))
            } else {
                None
            }
        },
        None => None,
    }
}

/// ` ({endpoint}) · {n} rows · pick one`, then ` · ` and the trimmed note cut to 44
/// columns when there is one.
pub open spec fn spec_pick_one_title_tail(endpoint: Seq<char>, row_count: nat, note: Option<Seq<char>>) -> Seq<
    char,
> {
    " ("@ + endpoint + ") · "@ + decimal(row_count) + " rows · pick one"@ + match spec_trimmed_note(
        note,
    ) {
        Some(t) => " · "@ + spec_truncate_vis(t, 44),
        None => Seq::empty(),
    }
}

/// The tail of a listing picker's title.
pub fn pick_one_title_tail(endpoint: &str, row_count: usize, note: Option<&String>) -> (r: String)
    ensures
        r@ == spec_pick_one_title_tail(endpoint@, row_count as nat, opt_ref_view(note)),
{
    let mut v = chars_of(" (");
    push_str(&mut v, endpoint);
    push_str(&mut v, ") · ");
    push_decimal(&mut v, row_count as u128);
    push_str(&mut v, " rows · pick one");
    if let Some(t) = trimmed_credentials_note(note) {
        push_str(&mut v, " · ");
        let c = truncate_vis(t.as_str(), 44);
        push_str(&mut v, c.as_str());
    }
    string_of(&v)
}

/// `text` followed, when the note is not blank, by a blank line and the trimmed note.
pub open spec fn spec_with_footer(text: Seq<char>, note: Option<Seq<char>>) -> Seq<char> {
    match spec_trimmed_note(note) {
        Some(t) => text + "\n\n"@ + t,
        None => text,
    }
}

/// Appends the credentials note (trimmed, after a blank line) unless it is blank.
pub fn append_credentials_footer(text: &mut String, note: Option<&String>)
    ensures
        final(text)@ == spec_with_footer(old(text)@, opt_ref_view(note)),
{
    if let Some(t) = trimmed_credentials_note(note) {
        let mut v = chars_of(text.as_str());
        push_str(&mut v, "\n\n");
        push_str(&mut v, t.as_str());
        *text = string_of(&v);
    }
}

/// `{title} ({endpoint})\n(No rows.)` with the credentials footer.
pub fn listing_empty_message(title: &str, endpoint: &str, note: Option<&String>) -> (r: String)
    ensures
        r@ == spec_with_footer(title@ + " ("@ + endpoint@ + ")\n(No rows.)"@, opt_ref_view(note)),
{
    let mut v = chars_of(title);
    push_str(&mut v, " (");
    push_str(&mut v, endpoint);
    push_str(&mut v, ")\n(No rows.)");
    let mut t = string_of(&v);
    append_credentials_footer(&mut t, note);
    t
}

/// `{title} ({endpoint})\n(Invalid selection; run /{command}.)`.
pub fn listing_invalid_selection_message(title: &str, endpoint: &str, command: &str) -> (r: String)
    ensures
        r@ == title@ + " ("@ + endpoint@ + ")\n(Invalid selection; run /"@ + command@ + ".)"@,
{
    let mut v = chars_of(title);
    push_str(&mut v, " (");
    push_str(&mut v, endpoint);
    push_str(&mut v, ")\n(Invalid selection; run /");
    push_str(&mut v, command);
    push_str(&mut v, ".)");
    string_of(&v)
}

/// ``Current {noun} set to `{id}`\n{label}`` with the credentials footer.
pub fn listing_choice_message(noun: &str, id: &str, label: &str, note: Option<&String>) -> (r: String)
    ensures
        r@ == spec_with_footer(
            "Current "@ + noun@ + " set to `"@ + id@ + "`\n"@ + label@,
            opt_ref_view(note),
        ),
{
    let mut v = chars_of("Current ");
    push_str(&mut v, noun);
    push_str(&mut v, " set to `");
    push_str(&mut v, id);
    push_str(&mut v, "`\n");
    push_str(&mut v, label);
    let mut t = string_of(&v);
    append_credentials_footer(&mut t, note);
    t
}

/// `Could not save {noun}:\n{error}` with the credentials footer.
pub fn listing_save_failed_message(noun: &str, error: &str, note: Option<&String>) -> (r: String)
    ensures
        r@ == spec_with_footer("Could not save "@ + noun@ + ":\n"@ + error@, opt_ref_view(note)),
{
    let mut v = chars_of("Could not save ");
    push_str(&mut v, noun);
    push_str(&mut v, ":\n");
    push_str(&mut v, error);
    let mut t = string_of(&v);
    append_credentials_footer(&mut t, note);
    t
}

// ---------------------------------------------------------------------------
// The /whoami pane
// ---------------------------------------------------------------------------

/// Which view of the identity record the pane shows.
#[derive(Clone, Copy, Debug, PartialEq, Eq, Structural)]
pub enum WhoamiJsonTab {
    /// The tabular view.
    Pretty,
    /// Indented JSON.
    Raw,
}

/// The `/whoami` output pane.
#[derive(Clone, Debug)]
pub struct WhoamiOutputPane {
    pub endpoint_note: String,
    /// The tabular view.
    pub pretty_json: String,
    /// The record as indented JSON.
    pub raw_json: String,
    pub credentials_note: Option<String>,
    pub tab: WhoamiJsonTab,
}

/// The `/whoami` pane as plain values.
pub struct PaneView {
    pub endpoint: Seq<char>,
    pub pretty: Seq<char>,
    pub raw: Seq<char>,
    pub note: Option<Seq<char>>,
    pub tab: WhoamiJsonTab,
}

impl View for WhoamiOutputPane {
    type V = PaneView;

    open spec fn view(&self) -> PaneView {
        PaneView {
            endpoint: self.endpoint_note@,
            pretty: self.pretty_json@,
            raw: self.raw_json@,
            note: opt_view(self.credentials_note),
            tab: self.tab,
        }
    }
}

/// The pane's text: the identity banner, the selected view, then the note (untrimmed)
/// after a blank line unless it is blank.
pub open spec fn spec_composed(p: WhoamiOutputPane) -> Seq<char> {
    let json = match p.tab {
        WhoamiJsonTab::Pretty => p.pretty_json@,
        WhoamiJsonTab::Raw => p.raw_json@,
    };
    let s = "── Identity ("@ + p.endpoint_note@ + ") ──\n"@ + json;
    match p.credentials_note {
        Some(n) => if trim_seq(n@).len() > 0 {
            s + "\n\n"@ + n@
        } else {
            s
        },
        None => s,
    }
}

impl WhoamiOutputPane {
    /// The text that the pane styles and shows.
    pub fn composed_for_styling(&self) -> (r: String)
        ensures
            r@ == spec_composed(*self),
    {
        let mut v = chars_of("── Identity (");
        push_str(&mut v, self.endpoint_note.as_str());
        push_str(&mut v, ") ──\n");
        match self.tab {
            WhoamiJsonTab::Pretty => push_str(&mut v, self.pretty_json.as_str()),
            WhoamiJsonTab::Raw => push_str(&mut v, self.raw_json.as_str()),
        }
        if let Some(n) = &self.credentials_note {
            let nc = chars_of(n.as_str());
            let t = trim_chars(&nc);
            if t.len() > 0 {
                push_str(&mut v, "\n\n");
                push_str(&mut v, n.as_str());
            }
        }
        proof {
            assert(v@ =~= spec_composed(*self));
        }
        string_of(&v)
    }
}

} // verus!
