//! How the shell answers a key or a mouse-wheel notch, given what is on screen, and the
//! scrolling and selection arithmetic that goes with it.

use vstd::prelude::*;

use crate::commands::{cmd_names, cmds};
use crate::shell::spec_wheel_scroll_lines;
use crate::text::{chars_of, push_str, string_of, trim_seq, trim_start_index, trim_start_seq, trim_str};

verus! {

/// The keys the shell tells apart.
#[derive(Clone, Copy, Debug, PartialEq, Eq, Structural)]
pub enum ShellKey {
    /// Ctrl-C.
    Interrupt,
    Esc,
    Enter,
    Up,
    Down,
    Tab,
    BackTab,
    PageUp,
    PageDown,
    Home,
    End,
    /// Anything else (typed into the input line).
    Other,
}

/// What is on screen when a key arrives.
#[derive(Clone, Copy, Debug, PartialEq, Eq, Structural)]
pub struct KeyContext {
    /// Whether the input opens the command palette (`Some` palette, even an empty one).
    pub palette_open: bool,
    /// Number of commands the palette lists.
    pub palette_len: usize,
    /// Whether the input, after leading whitespace, starts with `/`.
    pub input_starts_with_slash: bool,
    pub listing_open: bool,
    pub browse_open: bool,
    pub whoami_open: bool,
    pub status_shown: bool,
}

/// What the shell does with a key.
#[derive(Clone, Copy, Debug, PartialEq, Eq, Structural)]
pub enum KeyAction {
    Quit,
    /// Empty the input (and the palette selection).
    ClearInput,
    CloseListing,
    /// Step the navigator back, leaving it when there is nowhere to go back to.
    BrowseBack,
    ListingEnter,
    BrowseEnter,
    Submit,
    BrowseMove { down: bool },
    ListingMove { down: bool },
    PaletteMove { down: bool },
    ToggleWhoamiTab,
    PaletteCycle { forward: bool },
    ScrollPageUp,
    ScrollPageDown,
    ScrollHome,
    ScrollEnd,
    /// Hand the key to the input line.
    Type,
    Ignore,
}

/// The palette is absent or lists nothing.
pub open spec fn palette_quiet(c: KeyContext) -> bool {
    !c.palette_open || c.palette_len == 0
}

/// The navigator takes the arrows and Enter.
pub open spec fn browse_exclusive(c: KeyContext) -> bool {
    c.browse_open && palette_quiet(c)
}

/// The listing picker takes the arrows and Enter.
pub open spec fn listing_exclusive(c: KeyContext) -> bool {
    c.listing_open && palette_quiet(c)
}

/// The output pane can be scrolled from the keyboard.
pub open spec fn output_scrollable(c: KeyContext) -> bool {
    (c.status_shown || c.whoami_open) && palette_quiet(c) && !c.browse_open && !c.listing_open
}

/// A key that no rule claims goes to the input line unless a picker is exclusive.
pub open spec fn fallback(c: KeyContext) -> KeyAction {
    if !browse_exclusive(c) && !listing_exclusive(c) {
        KeyAction::Type
    } else {
        KeyAction::Ignore
    }
}

/// The shell's answer to a key.
pub open spec fn spec_key_action(key: ShellKey, c: KeyContext) -> KeyAction {
    match key {
        ShellKey::Interrupt => KeyAction::Quit,
        ShellKey::Esc => if c.palette_open && c.input_starts_with_slash {
            KeyAction::ClearInput
        } else if listing_exclusive(c) {
            KeyAction::CloseListing
        } else if c.browse_open {
            KeyAction::BrowseBack
        } else {
            KeyAction::Quit
        },
        ShellKey::Enter => if listing_exclusive(c) {
            KeyAction::ListingEnter
        } else if browse_exclusive(c) {
            KeyAction::BrowseEnter
        } else {
            KeyAction::Submit
        },
        ShellKey::Up | ShellKey::Down => {
            let down = key == ShellKey::Down;
            if browse_exclusive(c) {
                KeyAction::BrowseMove { down }
            } else if listing_exclusive(c) {
                KeyAction::ListingMove { down }
            } else if c.palette_open && c.palette_len > 0 {
                KeyAction::PaletteMove { down }
            } else {
                fallback(c)
            }
        },
        ShellKey::Tab | ShellKey::BackTab => {
            let forward = key == ShellKey::Tab;
            if !c.browse_open && !c.listing_open && palette_quiet(c) && c.whoami_open {
                KeyAction::ToggleWhoamiTab
            } else if c.palette_open && (if forward { c.palette_len > 1 } else { c.palette_len > 0 }) {
                KeyAction::PaletteCycle { forward }
            } else {
                fallback(c)
            }
        },
        ShellKey::PageUp => if output_scrollable(c) { KeyAction::ScrollPageUp } else { fallback(c) },
        ShellKey::PageDown => if output_scrollable(c) { KeyAction::ScrollPageDown } else { fallback(c) },
        ShellKey::Home => if output_scrollable(c) { KeyAction::ScrollHome } else { fallback(c) },
        ShellKey::End => if output_scrollable(c) { KeyAction::ScrollEnd } else { fallback(c) },
        ShellKey::Other => fallback(c),
    }
}

/// Decides what a key does.
pub fn key_action(key: ShellKey, c: KeyContext) -> (r: KeyAction)
    ensures
        r == spec_key_action(key, c),
{
    let quiet = !c.palette_open || c.palette_len == 0;
    let browse_ex = c.browse_open && quiet;
    let listing_ex = c.listing_open && quiet;
    let scrollable = (c.status_shown || c.whoami_open) && quiet && !c.browse_open && !c.listing_open;
    let fb = if !browse_ex && !listing_ex { KeyAction::Type } else { KeyAction::Ignore };
    match key {
        ShellKey::Interrupt => KeyAction::Quit,
        ShellKey::Esc => {
            if c.palette_open && c.input_starts_with_slash {
                KeyAction::ClearInput
            } else if listing_ex {
                KeyAction::CloseListing
            } else if c.browse_open {
                KeyAction::BrowseBack
            } else {
                KeyAction::Quit
            }
        },
        ShellKey::Enter => {
            if listing_ex {
                KeyAction::ListingEnter
            } else if browse_ex {
                KeyAction::BrowseEnter
            } else {
                KeyAction::Submit
            }
        },
        ShellKey::Up | ShellKey::Down => {
            let down = match key {
                ShellKey::Down => true,
                _ => false,
            };
            if browse_ex {
                KeyAction::BrowseMove { down }
            } else if listing_ex {
                KeyAction::ListingMove { down }
            } else if c.palette_open && c.palette_len > 0 {
                KeyAction::PaletteMove { down }
            } else {
                fb
            }
        },
        ShellKey::Tab | ShellKey::BackTab => {
            let forward = match key {
                ShellKey::Tab => true,
                _ => false,
            };
            let enough = if forward { c.palette_len > 1 } else { c.palette_len > 0 };
            if !c.browse_open && !c.listing_open && quiet && c.whoami_open {
                KeyAction::ToggleWhoamiTab
            } else if c.palette_open && enough {
                KeyAction::PaletteCycle { forward }
            } else {
                fb
            }
        },
        ShellKey::PageUp => if scrollable { KeyAction::ScrollPageUp } else { fb },
        ShellKey::PageDown => if scrollable { KeyAction::ScrollPageDown } else { fb },
        ShellKey::Home => if scrollable { KeyAction::ScrollHome } else { fb },
        ShellKey::End => if scrollable { KeyAction::ScrollEnd } else { fb },
        ShellKey::Other => fb,
    }
}

// ---------------------------------------------------------------------------
// Selections
// ---------------------------------------------------------------------------

/// Tab / Shift-Tab through the palette: the next entry (wrapping) or the previous one
/// (from the first, the last).
pub open spec fn spec_palette_cycle(selected: Option<usize>, len: usize, forward: bool) -> usize {
    let sel = match selected {
        Some(s) => s,
        None => 0,
    };
    if forward {
        ((sel + 1) % (len as int)) as usize
    } else if sel >= 1 {
        (sel - 1) as usize
    } else {
        (len - 1) as usize
    }
}

/// The palette entry selected after Tab (`forward`) or Shift-Tab.
pub fn palette_cycle(selected: Option<usize>, len: usize, forward: bool) -> (r: usize)
    requires
        len > 0,
        forward ==> match selected {
            Some(s) => s < usize::MAX,
            None => true,
        },
    ensures
        r == spec_palette_cycle(selected, len, forward),
{
    let sel = match selected {
        Some(s) => s,
        None => 0,
    };
    if forward {
        (sel + 1) % len
    } else if sel >= 1 {
        sel - 1
    } else {
        len - 1
    }
}

/// A selection kept while it points into the list, else the first row (or none).
pub open spec fn spec_synced_selection(selected: Option<usize>, len: usize) -> Option<usize> {
    match selected {
        Some(s) if s < len => Some(s),
        _ => if len > 0 {
            Some(0)
        } else {
            None
        },
    }
}

/// Re-aims a list selection after the list changed.
pub fn synced_selection(selected: Option<usize>, len: usize) -> (r: Option<usize>)
    ensures
        r == spec_synced_selection(selected, len),
{
    match selected {
        Some(s) if s < len => Some(s),
        _ => if len > 0 {
            Some(0)
        } else {
            None
        },
    }
}

/// The line that Enter submits: the highlighted palette command (or the only one listed)
/// as `/name`; otherwise the input trimmed.
pub open spec fn spec_line_to_submit(input: Seq<char>, palette: Option<Seq<usize>>, selected: Option<usize>) -> Seq<char> {
    let name_of = |ci: usize| if ci < cmd_names().len() { cmd_names()[ci as int] } else { Seq::empty() };
    match palette {
        Some(idxs) => match selected {
            Some(si) => if si < idxs.len() {
                "/"@ + name_of(idxs[si as int])
            } else {
                trim_seq(input)
            },
            None => if idxs.len() == 1 {
                "/"@ + name_of(idxs[0])
            } else {
                trim_seq(input)
            },
        },
        None => trim_seq(input),
    }
}

fn slash_name(ci: usize) -> (r: String)
    ensures
        r@ == "/"@ + if ci < cmd_names().len() { cmd_names()[ci as int] } else { Seq::empty() },
{
    let all = cmds();
    let mut v = chars_of("/");
    if ci < all.len() {
        push_str(&mut v, all[ci].name);
    }
    proof {
        assert(v@ =~= "/"@ + if ci < cmd_names().len() { cmd_names()[ci as int] } else { Seq::<char>::empty() });
    }
    string_of(&v)
}

/// What Enter submits, given the input, the palette and its highlighted row.
pub fn line_to_submit(input: &str, palette: Option<&Vec<usize>>, selected: Option<usize>) -> (r: String)
    ensures
        r@ == spec_line_to_submit(input@, match palette {
            Some(v) => Some(v@),
            None => None,
        }, selected),
{
    match palette {
        Some(idxs) => match selected {
            Some(si) => if si < idxs.len() {
                slash_name(idxs[si])
            } else {
                trim_str(input)
            },
            None => if idxs.len() == 1 {
                slash_name(idxs[0])
            } else {
                trim_str(input)
            },
        },
        None => trim_str(input),
    }
}

// ---------------------------------------------------------------------------
// Scrolling
// ---------------------------------------------------------------------------

/// Rows per Page Up / Page Down: the viewport height, or 12 before it is known.
pub open spec fn spec_page_step(viewport_h: u16) -> u16 {
    if viewport_h > 0 { viewport_h } else { 12 }
}

/// `row` moved by `step` rows, up (not below 0) or down (not past `max`).
pub open spec fn spec_scrolled(row: u16, step: u16, down: bool, max: u16) -> u16 {
    if down {
        let r = if row + step > u16::MAX { u16::MAX as int } else { row + step };
        (if r < max { r } else { max as int }) as u16
    } else if row >= step {
        (row - step) as u16
    } else {
        0
    }
}

/// Scroll offset after Page Up (`down == false`) or Page Down.
pub fn page_scroll(row: u16, viewport_h: u16, down: bool, max: u16) -> (r: u16)
    ensures
        r == spec_scrolled(row, spec_page_step(viewport_h), down, max),
{
    let step = if viewport_h > 0 { viewport_h } else { 12 };
    scrolled(row, step, down, max)
}

fn scrolled(row: u16, step: u16, down: bool, max: u16) -> (r: u16)
    ensures
        r == spec_scrolled(row, step, down, max),
{
    if down {
        let r = row.saturating_add(step);
        if r < max { r } else { max }
    } else {
        row.saturating_sub(step)
    }
}

/// Whether a wheel notch scrolls the output: only with output shown, no picker or
/// navigator, no palette listing commands, and the pointer over the output pane.
pub open spec fn spec_wheel_applies(c: KeyContext, over_output: bool) -> bool {
    !c.browse_open && !c.listing_open && (c.status_shown || c.whoami_open) && palette_quiet(c)
        && over_output
}

/// Scroll offset after a wheel notch, or `None` when the notch does not scroll.
pub fn wheel_scroll(row: u16, up: bool, viewport_h: u16, max: u16, c: KeyContext, over_output: bool) -> (r: Option<u16>)
    ensures
        r == if spec_wheel_applies(c, over_output) {
            Some(spec_scrolled(row, spec_wheel_scroll_lines(viewport_h), !up, max))
        } else {
            None::<u16>
        },
{
    let applies = !c.browse_open && !c.listing_open && (c.status_shown || c.whoami_open)
        && (!c.palette_open || c.palette_len == 0) && over_output;
    if !applies {
        return None;
    }
    let step = crate::shell::wheel_scroll_lines(viewport_h);
    Some(scrolled(row, step, !up, max))
}

/// Whether the cell `(col, row)` lies in the rectangle at `(x, y)` of `width` by `height`
/// (edges computed with saturation).
pub open spec fn spec_rect_contains(x: u16, y: u16, width: u16, height: u16, col: u16, row: u16) -> bool {
    let xe = if x + width > u16::MAX { u16::MAX as int } else { x + width };
    let ye = if y + height > u16::MAX { u16::MAX as int } else { y + height };
    col >= x && col < xe && row >= y && row < ye
}

/// Whether a cell lies inside a rectangle.
pub fn rect_contains(x: u16, y: u16, width: u16, height: u16, col: u16, row: u16) -> (b: bool)
    ensures
        b == spec_rect_contains(x, y, width, height, col, row),
{
    col >= x && col < x.saturating_add(width) && row >= y && row < y.saturating_add(height)
}

/// Whether the input, after leading whitespace, starts with `/`.
pub fn opens_command(input: &str) -> (b: bool)
    ensures
        b == (trim_start_seq(input@).len() > 0 && trim_start_seq(input@)[0] == '/'),
{
    let cs = chars_of(input);
    let i = trim_start_index(&cs);
    i < cs.len() && cs[i] == '/'
}

// ---------------------------------------------------------------------------
// Laws
// ---------------------------------------------------------------------------

/// Esc never quits while a picker or the navigator is open: it steps back or closes
/// (the palette opens only on input that starts with `/`).
pub proof fn law_esc_steps_back_before_quitting(c: KeyContext)
    requires
        c.browse_open || c.listing_open,
        c.palette_open ==> c.input_starts_with_slash,
    ensures
        spec_key_action(ShellKey::Esc, c) != KeyAction::Quit,
{
}

/// While a picker or the navigator holds the keys, nothing is typed into the input.
pub proof fn law_exclusive_pickers_swallow_typing(key: ShellKey, c: KeyContext)
    requires
        browse_exclusive(c) || listing_exclusive(c),
    ensures
        spec_key_action(key, c) != KeyAction::Type,
{
}

/// Scrolling keeps the offset within `0..=max` once it is there.
pub proof fn law_scroll_stays_in_range(row: u16, step: u16, down: bool, max: u16)
    requires
        row <= max,
    ensures
        spec_scrolled(row, step, down, max) <= max,
{
}

/// Cycling through the palette stays on one of its entries.
pub proof fn law_palette_cycle_in_range(selected: Option<usize>, len: usize, forward: bool)
    requires
        len > 0,
        match selected {
            Some(s) => s < len,
            None => true,
        },
    ensures
        spec_palette_cycle(selected, len, forward) < len,
{
}

} // verus!
