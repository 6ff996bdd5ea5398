//! Text shown around the log view: the view's title, the status bar and the
//! source tags in front of merged lines.
use crate::index::Severity;
use crate::mcp::response::floor_char_boundary;
use crate::renderer::segment::TerminalStyle;
use crate::source::SourceStatus;
use crate::tab::{FilterState, TabState, ViewMode};
use crate::theme::{Color, UiColors};
use crate::text::{decimal, push_decimal, push_str, str_chars, string_from_chars};
use crate::viewport::sat_sub;
use vstd::prelude::*;
use vstd::string::StringSliceAdditionalSpecFns;
use vstd::utf8::{decode_utf8, encode_utf8, is_char_boundary};

verus! {

/// Title of the log view: the tab's name, and in filtered view the filter
/// pattern (or a plain note when there is none).
pub open spec fn title_text(name: Seq<char>, mode: ViewMode, pattern: Option<Seq<char>>) -> Seq<char> {
    match mode {
        ViewMode::Normal => name,
        ViewMode::Filtered => match pattern {
            Some(p) => name + " (Filter: \""@ + p + "\")"@,
            None => name + " (Filtered)"@,
        },
        ViewMode::Aggregation => match pattern {
            Some(p) => name + " (Aggregation: \""@ + p + "\")"@,
            None => name + " (Aggregation)"@,
        },
    }
}

/// The text view of an optional string.
pub open spec fn opt_text(o: Option<String>) -> Option<Seq<char>> {
    match o {
        Some(s) => Some(s@),
        None => None,
    }
}

/// Title of the log view for a tab.
pub fn build_title<R, W, M, Rx, C>(tab: &TabState<R, W, M, Rx, C>) -> (r: String)
    ensures
        r@ == title_text(tab.name@, tab.mode, opt_text(tab.filter.pattern)),
{
    let mut out = str_chars(tab.name.as_str());
    match tab.mode {
        ViewMode::Normal => {},
        ViewMode::Filtered => match &tab.filter.pattern {
            Some(p) => {
                push_str(&mut out, " (Filter: \"");
                push_str(&mut out, p.as_str());
                push_str(&mut out, "\")");
            },
            None => push_str(&mut out, " (Filtered)"),
        },
        ViewMode::Aggregation => match &tab.filter.pattern {
            Some(p) => {
                push_str(&mut out, " (Aggregation: \"");
                push_str(&mut out, p.as_str());
                push_str(&mut out, "\")");
            },
            None => push_str(&mut out, " (Aggregation)"),
        },
    }
    string_from_chars(out.as_slice())
}

/// The filter part of the status bar.
pub open spec fn filter_status_text(state: FilterState, total: int) -> Seq<char> {
    match state {
        FilterState::Inactive => Seq::empty(),
        FilterState::Processing { lines_processed } => "| Filtering: "@ + decimal(
            (if total > 0 {
                (lines_processed * 100) / total
            } else {
                0
            }) as nat,
        ) + "%"@,
        FilterState::Complete { matches } => "| Matches: "@ + decimal(matches as nat),
    }
}

/// The first line of the status bar: position, line counts, view mode,
/// filter progress and follow mode.
pub open spec fn status_text_of(
    selected: int,
    visible: int,
    total: int,
    mode: ViewMode,
    state: FilterState,
    follow: bool,
) -> Seq<char> {
    " Line "@ + decimal((selected + 1) as nat) + "/"@ + decimal(visible as nat) + " | Total: "@
        + decimal(total as nat) + " | Mode: "@ + match mode {
        ViewMode::Normal => "Normal"@,
        ViewMode::Filtered => "Filtered"@,
        ViewMode::Aggregation => "Aggregation"@,
    } + " "@ + filter_status_text(state, total) + if follow {
        " | FOLLOW"@
    } else {
        Seq::empty()
    }
}

/// The first line of the status bar for a tab.
#[verifier::rlimit(40)]
pub fn status_text<R, W, M, Rx, C>(tab: &TabState<R, W, M, Rx, C>) -> (r: String)
    requires
        tab.selected_line + 1 <= usize::MAX,
        tab.filter.state matches FilterState::Processing { lines_processed } ==> lines_processed * 100
            <= usize::MAX,
    ensures
        r@ == status_text_of(
            tab.selected_line as int,
            tab.line_indices@.len() as int,
            tab.total_lines as int,
            tab.mode,
            tab.filter.state,
            tab.follow_mode,
        ),
{
    let mut out: Vec<char> = Vec::new();
    push_str(&mut out, " Line ");
    push_decimal(&mut out, (tab.selected_line + 1) as u128);
    push_str(&mut out, "/");
    push_decimal(&mut out, tab.line_indices.len() as u128);
    push_str(&mut out, " | Total: ");
    push_decimal(&mut out, tab.total_lines as u128);
    push_str(&mut out, " | Mode: ");
    match tab.mode {
        ViewMode::Normal => push_str(&mut out, "Normal"),
        ViewMode::Filtered => push_str(&mut out, "Filtered"),
        ViewMode::Aggregation => push_str(&mut out, "Aggregation"),
    }
    push_str(&mut out, " ");
    match tab.filter.state {
        FilterState::Inactive => {},
        FilterState::Processing { lines_processed } => {
            let percent = if tab.total_lines > 0 {
                (lines_processed * 100) / tab.total_lines
            } else {
                0
            };
            push_str(&mut out, "| Filtering: ");
            push_decimal(&mut out, percent as u128);
            push_str(&mut out, "%");
        },
        FilterState::Complete { matches } => {
            push_str(&mut out, "| Matches: ");
            push_decimal(&mut out, matches as u128);
        },
    }
    if tab.follow_mode {
        push_str(&mut out, " | FOLLOW");
    }
    let r = string_from_chars(out.as_slice());
    assert(r@ =~= status_text_of(
        tab.selected_line as int,
        tab.line_indices@.len() as int,
        tab.total_lines as int,
        tab.mode,
        tab.filter.state,
        tab.follow_mode,
    ));
    r
}

/// The key help shown under the status line: tab switching when several
/// tabs are open, the basic keys otherwise.
pub fn status_help_text(tab_count: usize) -> (r: &'static str)
    ensures
        r@ == if tab_count > 1 {
            " Tab/Shift+Tab - Switch | 1-9 - Select | ? - Help"@
        } else {
            " q - Quit | j/k - Navigate | g/G - Start/End | / - Filter | ? - Help"@
        },
{
    if tab_count > 1 {
        " Tab/Shift+Tab - Switch | 1-9 - Select | ? - Help"
    } else {
        " q - Quit | j/k - Navigate | g/G - Start/End | / - Filter | ? - Help"
    }
}

/// `n` spaces (none when `n <= 0`).
pub open spec fn spaces(n: int) -> Seq<char> {
    Seq::new(if n > 0 { n as nat } else { 0 }, |i: int| ' ')
}

/// A source name cut to fit a tag: names longer than the inner width (in
/// bytes) are cut at a character boundary two bytes before it and get `..`.
pub open spec fn tag_name(name: Seq<char>, inner: int) -> Seq<char> {
    let b = encode_utf8(name);
    if b.len() > inner {
        decode_utf8(b.subrange(0, floor_char_boundary(b, sat_sub(inner, 2)))) + ".."@
    } else {
        name
    }
}

/// `[name] ` with the name cut to fit and padded with spaces to the inner
/// width (`max_width - 3` characters).
pub open spec fn source_tag(name: Seq<char>, max_width: int) -> Seq<char> {
    let inner = sat_sub(max_width, 3);
    let t = tag_name(name, inner);
    "["@ + t + spaces(inner - t.len()) + "] "@
}

/// The prefix of `name` up to the last character boundary at or before
/// byte `m`.
fn prefix_at_boundary(name: &str, m: usize) -> (r: String)
    requires
        m < name.spec_bytes().len(),
    ensures
        r@ == decode_utf8(encode_utf8(name@).subrange(0, floor_char_boundary(encode_utf8(name@), m as int))),
{
    let ghost b = name.spec_bytes();
    proof {
        vstd::utf8::encode_utf8_valid_utf8(name@);
        lemma_floor_char_boundary_props(b, m as int);
    }
    let mut end = m;
    while end > 0 && !name.is_char_boundary(end)
        invariant
            b == name.spec_bytes(),
            vstd::utf8::valid_utf8(b),
            end <= m < b.len(),
            floor_char_boundary(b, end as int) == floor_char_boundary(b, m as int),
        decreases end,
    {
        end = end - 1;
    }
    proof {
        vstd::utf8::is_char_boundary_start_end_of_seq(b);
    }
    let (head, _) = name.split_at(end);
    proof {
        broadcast use vstd::utf8::group_utf8_lib;

        assert(head@ == decode_utf8(b.subrange(0, end as int)));
    }
    head.to_string()
}

proof fn lemma_floor_char_boundary_props(b: Seq<u8>, m: int)
    requires
        vstd::utf8::valid_utf8(b),
    ensures
        0 <= floor_char_boundary(b, m) <= b.len(),
        is_char_boundary(b, floor_char_boundary(b, m)),
    decreases m,
{
    vstd::utf8::is_char_boundary_start_end_of_seq(b);
    if m > 0 && m < b.len() && !is_char_boundary(b, m) {
        lemma_floor_char_boundary_props(b, m - 1);
    }
}

/// Format a source name into a fixed-width tag like "[api] " or "[web-s..] ".
pub fn format_source_tag(name: &str, max_width: usize) -> (r: String)
    ensures
        r@ == source_tag(name@, max_width as int),
{
    let inner_max: usize = if max_width >= 3 {
        max_width - 3
    } else {
        0
    };
    let truncated = if name.as_bytes().len() > inner_max {
        let cut: usize = if inner_max >= 2 {
            inner_max - 2
        } else {
            0
        };
        let head = prefix_at_boundary(name, cut);
        let mut t = str_chars(head.as_str());
        push_str(&mut t, "..");
        t
    } else {
        str_chars(name)
    };
    let ghost t = truncated@;
    let mut out: Vec<char> = Vec::new();
    out.push('[');
    let mut i: usize = 0;
    assert(out@ =~= seq!['['] + truncated@.subrange(0, 0));
    while i < truncated.len()
        invariant
            i <= truncated@.len(),
            out@ == seq!['['] + truncated@.subrange(0, i as int),
        decreases truncated@.len() - i,
    {
        out.push(truncated[i]);
        i = i + 1;
        assert(out@ =~= seq!['['] + truncated@.subrange(0, i as int));
    }
    assert(truncated@.subrange(0, truncated@.len() as int) == truncated@);
    let mut k: usize = truncated.len();
    assert(out@ =~= seq!['['] + truncated@ + spaces(k - truncated@.len()));
    while k < inner_max
        invariant
            truncated@.len() <= k,
            k <= inner_max || k == truncated@.len(),
            out@ == seq!['['] + truncated@ + spaces(k - truncated@.len()),
        decreases inner_max - k,
    {
        out.push(' ');
        k = k + 1;
        assert(out@ =~= seq!['['] + truncated@ + spaces(k - truncated@.len()));
    }
    let ghost padded = out@;
    assert(padded =~= seq!['['] + truncated@ + spaces(inner_max - truncated@.len())) by {
        if truncated@.len() < inner_max {
            assert(k == inner_max);
        } else {
            assert(k == truncated@.len());
            assert(spaces(0) =~= spaces(inner_max - truncated@.len()));
        }
    }
    push_str(&mut out, "] ");
    let r = string_from_chars(out.as_slice());
    assert(truncated@ == tag_name(name@, inner_max as int)) by {
        assert(name.spec_bytes() == encode_utf8(name@));
    }
    assert(inner_max == sat_sub(max_width as int, 3));
    proof {
        reveal_strlit("[");
        assert("["@ =~= seq!['[']);
    }
    assert(r@ =~= source_tag(name@, max_width as int));
    r
}


/// The tab name shown in the close dialog: names longer than 30 bytes are
/// cut at a character boundary at or before byte 27 and get `...`.
pub open spec fn close_dialog_name(name: Seq<char>) -> Seq<char> {
    let b = encode_utf8(name);
    if b.len() > 30 {
        decode_utf8(b.subrange(0, floor_char_boundary(b, 27))) + "..."@
    } else {
        name
    }
}

/// A plain span style: no attribute, the terminal's colors.
pub open spec fn plain_style() -> TerminalStyle {
    TerminalStyle { dim: false, bold: false, italic: false, fg: None }
}

/// A span style with only a foreground color (and boldness).
pub open spec fn fg_style(c: Color, bold: bool) -> TerminalStyle {
    TerminalStyle { dim: false, bold, italic: false, fg: Some(c) }
}

pub open spec fn styled_view(l: Seq<(String, TerminalStyle)>) -> Seq<(Seq<char>, TerminalStyle)> {
    l.map_values(|sp: (String, TerminalStyle)| (sp.0@, sp.1))
}

/// The lines of the dialog that asks to close a tab: the question with the
/// name in the primary color and bold, a note (the source file will be
/// deleted; closing the last tab quits; or an empty line), and the keys.
pub open spec fn close_dialog_text(name: Seq<char>, is_last: bool, will_delete: bool, ui: UiColors) -> Seq<
    Seq<(Seq<char>, TerminalStyle)>,
> {
    seq![
        seq![],
        seq![
            ("  Close "@, plain_style()),
            (close_dialog_name(name), fg_style(ui.primary, true)),
            ("?"@, plain_style()),
        ],
        if will_delete {
            seq![("  Source file will be deleted"@, fg_style(ui.negative, false))]
        } else if is_last {
            seq![("  This will quit the application"@, fg_style(ui.muted, false))]
        } else {
            seq![]
        },
        seq![
            ("  "@, plain_style()),
            ("y/Enter"@, fg_style(ui.positive, false)),
            (" confirm  "@, plain_style()),
            ("n/Esc"@, fg_style(ui.negative, false)),
            (" cancel"@, plain_style()),
        ],
    ]
}

fn span(text: &str, style: TerminalStyle) -> (r: (String, TerminalStyle))
    ensures
        r.0@ == text@,
        r.1 == style,
{
    (string_from_chars(str_chars(text).as_slice()), style)
}

/// The lines of the dialog that asks to close a tab (each line a list of
/// styled spans; an empty list is an empty line).
pub fn close_dialog_lines(name: &str, is_last: bool, will_delete: bool, ui: &UiColors) -> (r: Vec<
    Vec<(String, TerminalStyle)>,
>)
    ensures
        r@.map_values(|l: Vec<(String, TerminalStyle)>| styled_view(l@)) == close_dialog_text(
            name@,
            is_last,
            will_delete,
            *ui,
        ),
{
    let plain = TerminalStyle { dim: false, bold: false, italic: false, fg: None };
    let shown = if name.as_bytes().len() > 30 {
        let mut s = str_chars(prefix_at_boundary(name, 27).as_str());
        push_str(&mut s, "...");
        string_from_chars(s.as_slice())
    } else {
        string_from_chars(str_chars(name).as_slice())
    };
    proof {
        vstd::utf8::encode_utf8_valid_utf8(name@);
    }
    let mut lines: Vec<Vec<(String, TerminalStyle)>> = Vec::new();
    lines.push(Vec::new());
    let mut q: Vec<(String, TerminalStyle)> = Vec::new();
    q.push(span("  Close ", plain));
    q.push((shown, TerminalStyle { dim: false, bold: true, italic: false, fg: Some(ui.primary) }));
    q.push(span("?", plain));
    lines.push(q);
    let mut note: Vec<(String, TerminalStyle)> = Vec::new();
    if will_delete {
        note.push(span("  Source file will be deleted", TerminalStyle { dim: false, bold: false, italic: false, fg: Some(ui.negative) }));
    } else if is_last {
        note.push(span("  This will quit the application", TerminalStyle { dim: false, bold: false, italic: false, fg: Some(ui.muted) }));
    }
    lines.push(note);
    let mut keys: Vec<(String, TerminalStyle)> = Vec::new();
    keys.push(span("  ", plain));
    keys.push(span("y/Enter", TerminalStyle { dim: false, bold: false, italic: false, fg: Some(ui.positive) }));
    keys.push(span(" confirm  ", plain));
    keys.push(span("n/Esc", TerminalStyle { dim: false, bold: false, italic: false, fg: Some(ui.negative) }));
    keys.push(span(" cancel", plain));
    lines.push(keys);
    proof {
        let v = lines@.map_values(|l: Vec<(String, TerminalStyle)>| styled_view(l@));
        assert(v[0] =~= close_dialog_text(name@, is_last, will_delete, *ui)[0]);
        assert(v[1] =~= close_dialog_text(name@, is_last, will_delete, *ui)[1]);
        assert(v[2] =~= close_dialog_text(name@, is_last, will_delete, *ui)[2]);
        assert(v[3] =~= close_dialog_text(name@, is_last, will_delete, *ui)[3]);
        assert(v =~= close_dialog_text(name@, is_last, will_delete, *ui));
    }
    lines
}

/// Where the close dialog stands in an area `(x, y, width, height)`: at
/// most 44 columns wide (4 less than the area), 6 rows high, centered.
pub open spec fn close_popup(x: u16, y: u16, width: u16, height: u16) -> (int, int, int, int) {
    let w = if 44 < sat_sub(width as int, 4) { 44 } else { sat_sub(width as int, 4) };
    (x + sat_sub(width as int, w) / 2, y + sat_sub(height as int, 6) / 2, w, 6)
}

/// The area of the close dialog inside an area `(x, y, width, height)`.
pub fn close_popup_area(x: u16, y: u16, width: u16, height: u16) -> (r: (u16, u16, u16, u16))
    requires
        x + width / 2 <= u16::MAX,
        y + height / 2 <= u16::MAX,
    ensures
        (r.0 as int, r.1 as int, r.2 as int, r.3 as int) == close_popup(x, y, width, height),
{
    let inner = width.saturating_sub(4);
    let w: u16 = if 44 < inner { 44 } else { inner };
    let h: u16 = 6;
    (x + width.saturating_sub(w) / 2, y + height.saturating_sub(h) / 2, w, h)
}


/// A span style with a foreground color and the given attributes.
pub open spec fn text_style(c: Color, bold: bool, italic: bool) -> TerminalStyle {
    TerminalStyle { dim: false, bold, italic, fg: Some(c) }
}

/// The lines of the help overlay: a title, the key bindings by topic, the
/// side panel indicators in their colors and a closing hint.
pub open spec fn help_text(ui: UiColors) -> Seq<Seq<(Seq<char>, TerminalStyle)>> {
    seq![
        seq![("LazyTail - Quick Reference"@, text_style(ui.primary, true, false))],
        seq![],
        seq![("Navigation"@, text_style(ui.accent, true, false))],
        seq![("  j/k, ↑/↓      Move selection up/down"@, plain_style())],
        seq![("  g / G         Jump to start / end"@, plain_style())],
        seq![("  PageUp/Down   Scroll by page"@, plain_style())],
        seq![("  Ctrl+E/Y      Scroll viewport (vim-style)"@, plain_style())],
        seq![("  :123          Jump to line number"@, plain_style())],
        seq![("  zz/zt/zb      Center/top/bottom view"@, plain_style())],
        seq![],
        seq![("Filtering"@, text_style(ui.accent, true, false))],
        seq![("  /             Start filter (live preview)"@, plain_style())],
        seq![("  Tab           Cycle Plain → Regex → Query"@, plain_style())],
        seq![("  Alt+C         Toggle case sensitivity"@, plain_style())],
        seq![("  ↑/↓           Browse filter history"@, plain_style())],
        seq![("  Enter         Apply filter"@, plain_style())],
        seq![("  Esc           Clear filter"@, plain_style())],
        seq![("  Query mode    json | ... / logfmt | ..."@, plain_style())],
        seq![],
        seq![("Tabs"@, text_style(ui.accent, true, false))],
        seq![("  1-9           Jump to tab"@, plain_style())],
        seq![("  x, Ctrl+W     Close tab"@, plain_style())],
        seq![],
        seq![("Source Panel"@, text_style(ui.accent, true, false))],
        seq![("  Tab           Toggle panel focus"@, plain_style())],
        seq![("  j/k, ↑/↓      Navigate tree"@, plain_style())],
        seq![("  Space         Expand/collapse category"@, plain_style())],
        seq![("  Enter         Select source"@, plain_style())],
        seq![("  x             Close selected source"@, plain_style())],
        seq![("  y             Copy source path"@, plain_style())],
        seq![("  Esc           Return to log view"@, plain_style())],
        seq![],
        seq![("View"@, text_style(ui.accent, true, false))],
        seq![("  Space         Expand/collapse line"@, plain_style())],
        seq![("  c             Collapse all"@, plain_style())],
        seq![("  f             Toggle follow mode"@, plain_style())],
        seq![("  y             Copy line to clipboard"@, plain_style())],
        seq![],
        seq![("Mouse"@, text_style(ui.accent, true, false))],
        seq![("  Click source     Switch to tab"@, plain_style())],
        seq![("  Click log line   Select line"@, plain_style())],
        seq![("  Scroll wheel     Scroll log view"@, plain_style())],
        seq![("  Click category   Expand/collapse"@, plain_style())],
        seq![],
        seq![("Side Panel Indicators"@, text_style(ui.accent, true, false))],
        seq![("  "@, plain_style()), ("F"@, text_style(ui.positive, false, false)), ("  Follow mode    "@, plain_style()), ("*"@, text_style(ui.accent, false, false)), ("  Filter active"@, plain_style())],
        seq![("  "@, plain_style()), ("●"@, text_style(ui.positive, false, false)), ("  Source active  "@, plain_style()), ("○"@, text_style(ui.muted, false, false)), ("  Source ended"@, plain_style())],
        seq![("  "@, plain_style()), ("⟳"@, text_style(ui.highlight, false, false)), ("  Loading"@, plain_style())],
        seq![],
        seq![("  q / Ctrl+C    Quit"@, plain_style())],
        seq![],
        seq![("j/k to scroll, any other key to close"@, text_style(ui.muted, false, true))],
    ]
}

/// The lines of the help overlay (each line a list of styled spans; an
/// empty list is an empty line).
#[verifier::rlimit(50)]
pub fn help_lines(ui: &UiColors) -> (r: Vec<Vec<(String, TerminalStyle)>>)
    ensures
        r@.map_values(|l: Vec<(String, TerminalStyle)>| styled_view(l@)) == help_text(*ui),
{
    let plain = TerminalStyle { dim: false, bold: false, italic: false, fg: None };
    let mut lines: Vec<Vec<(String, TerminalStyle)>> = Vec::new();
    let mut l: Vec<(String, TerminalStyle)> = Vec::new();
    l.push(span("LazyTail - Quick Reference", TerminalStyle { dim: false, bold: true, italic: false, fg: Some(ui.primary) }));
    lines.push(l);
    lines.push(Vec::new());
    let mut l: Vec<(String, TerminalStyle)> = Vec::new();
    l.push(span("Navigation", TerminalStyle { dim: false, bold: true, italic: false, fg: Some(ui.accent) }));
    lines.push(l);
    let mut l: Vec<(String, TerminalStyle)> = Vec::new();
    l.push(span("  j/k, ↑/↓      Move selection up/down", plain));
    lines.push(l);
    let mut l: Vec<(String, TerminalStyle)> = Vec::new();
    l.push(span("  g / G         Jump to start / end", plain));
    lines.push(l);
    let mut l: Vec<(String, TerminalStyle)> = Vec::new();
    l.push(span("  PageUp/Down   Scroll by page", plain));
    lines.push(l);
    let mut l: Vec<(String, TerminalStyle)> = Vec::new();
    l.push(span("  Ctrl+E/Y      Scroll viewport (vim-style)", plain));
    lines.push(l);
    let mut l: Vec<(String, TerminalStyle)> = Vec::new();
    l.push(span("  :123          Jump to line number", plain));
    lines.push(l);
    let mut l: Vec<(String, TerminalStyle)> = Vec::new();
    l.push(span("  zz/zt/zb      Center/top/bottom view", plain));
    lines.push(l);
    lines.push(Vec::new());
    let mut l: Vec<(String, TerminalStyle)> = Vec::new();
    l.push(span("Filtering", TerminalStyle { dim: false, bold: true, italic: false, fg: Some(ui.accent) }));
    lines.push(l);
    let mut l: Vec<(String, TerminalStyle)> = Vec::new();
    l.push(span("  /             Start filter (live preview)", plain));
    lines.push(l);
    let mut l: Vec<(String, TerminalStyle)> = Vec::new();
    l.push(span("  Tab           Cycle Plain → Regex → Query", plain));
    lines.push(l);
    let mut l: Vec<(String, TerminalStyle)> = Vec::new();
    l.push(span("  Alt+C         Toggle case sensitivity", plain));
    lines.push(l);
    let mut l: Vec<(String, TerminalStyle)> = Vec::new();
    l.push(span("  ↑/↓           Browse filter history", plain));
    lines.push(l);
    let mut l: Vec<(String, TerminalStyle)> = Vec::new();
    l.push(span("  Enter         Apply filter", plain));
    lines.push(l);
    let mut l: Vec<(String, TerminalStyle)> = Vec::new();
    l.push(span("  Esc           Clear filter", plain));
    lines.push(l);
    let mut l: Vec<(String, TerminalStyle)> = Vec::new();
    l.push(span("  Query mode    json | ... / logfmt | ...", plain));
    lines.push(l);
    lines.push(Vec::new());
    let mut l: Vec<(String, TerminalStyle)> = Vec::new();
    l.push(span("Tabs", TerminalStyle { dim: false, bold: true, italic: false, fg: Some(ui.accent) }));
    lines.push(l);
    let mut l: Vec<(String, TerminalStyle)> = Vec::new();
    l.push(span("  1-9           Jump to tab", plain));
    lines.push(l);
    let mut l: Vec<(String, TerminalStyle)> = Vec::new();
    l.push(span("  x, Ctrl+W     Close tab", plain));
    lines.push(l);
    lines.push(Vec::new());
    let mut l: Vec<(String, TerminalStyle)> = Vec::new();
    l.push(span("Source Panel", TerminalStyle { dim: false, bold: true, italic: false, fg: Some(ui.accent) }));
    lines.push(l);
    let mut l: Vec<(String, TerminalStyle)> = Vec::new();
    l.push(span("  Tab           Toggle panel focus", plain));
    lines.push(l);
    let mut l: Vec<(String, TerminalStyle)> = Vec::new();
    l.push(span("  j/k, ↑/↓      Navigate tree", plain));
    lines.push(l);
    let mut l: Vec<(String, TerminalStyle)> = Vec::new();
    l.push(span("  Space         Expand/collapse category", plain));
    lines.push(l);
    let mut l: Vec<(String, TerminalStyle)> = Vec::new();
    l.push(span("  Enter         Select source", plain));
    lines.push(l);
    let mut l: Vec<(String, TerminalStyle)> = Vec::new();
    l.push(span("  x             Close selected source", plain));
    lines.push(l);
    let mut l: Vec<(String, TerminalStyle)> = Vec::new();
    l.push(span("  y             Copy source path", plain));
    lines.push(l);
    let mut l: Vec<(String, TerminalStyle)> = Vec::new();
    l.push(span("  Esc           Return to log view", plain));
    lines.push(l);
    lines.push(Vec::new());
    let mut l: Vec<(String, TerminalStyle)> = Vec::new();
    l.push(span("View", TerminalStyle { dim: false, bold: true, italic: false, fg: Some(ui.accent) }));
    lines.push(l);
    let mut l: Vec<(String, TerminalStyle)> = Vec::new();
    l.push(span("  Space         Expand/collapse line", plain));
    lines.push(l);
    let mut l: Vec<(String, TerminalStyle)> = Vec::new();
    l.push(span("  c             Collapse all", plain));
    lines.push(l);
    let mut l: Vec<(String, TerminalStyle)> = Vec::new();
    l.push(span("  f             Toggle follow mode", plain));
    lines.push(l);
    let mut l: Vec<(String, TerminalStyle)> = Vec::new();
    l.push(span("  y             Copy line to clipboard", plain));
    lines.push(l);
    lines.push(Vec::new());
    let mut l: Vec<(String, TerminalStyle)> = Vec::new();
    l.push(span("Mouse", TerminalStyle { dim: false, bold: true, italic: false, fg: Some(ui.accent) }));
    lines.push(l);
    let mut l: Vec<(String, TerminalStyle)> = Vec::new();
    l.push(span("  Click source     Switch to tab", plain));
    lines.push(l);
    let mut l: Vec<(String, TerminalStyle)> = Vec::new();
    l.push(span("  Click log line   Select line", plain));
    lines.push(l);
    let mut l: Vec<(String, TerminalStyle)> = Vec::new();
    l.push(span("  Scroll wheel     Scroll log view", plain));
    lines.push(l);
    let mut l: Vec<(String, TerminalStyle)> = Vec::new();
    l.push(span("  Click category   Expand/collapse", plain));
    lines.push(l);
    lines.push(Vec::new());
    let mut l: Vec<(String, TerminalStyle)> = Vec::new();
    l.push(span("Side Panel Indicators", TerminalStyle { dim: false, bold: true, italic: false, fg: Some(ui.accent) }));
    lines.push(l);
    let mut l: Vec<(String, TerminalStyle)> = Vec::new();
    l.push(span("  ", plain));
    l.push(span("F", TerminalStyle { dim: false, bold: false, italic: false, fg: Some(ui.positive) }));
    l.push(span("  Follow mode    ", plain));
    l.push(span("*", TerminalStyle { dim: false, bold: false, italic: false, fg: Some(ui.accent) }));
    l.push(span("  Filter active", plain));
    lines.push(l);
    let mut l: Vec<(String, TerminalStyle)> = Vec::new();
    l.push(span("  ", plain));
    l.push(span("●", TerminalStyle { dim: false, bold: false, italic: false, fg: Some(ui.positive) }));
    l.push(span("  Source active  ", plain));
    l.push(span("○", TerminalStyle { dim: false, bold: false, italic: false, fg: Some(ui.muted) }));
    l.push(span("  Source ended", plain));
    lines.push(l);
    let mut l: Vec<(String, TerminalStyle)> = Vec::new();
    l.push(span("  ", plain));
    l.push(span("⟳", TerminalStyle { dim: false, bold: false, italic: false, fg: Some(ui.highlight) }));
    l.push(span("  Loading", plain));
    lines.push(l);
    lines.push(Vec::new());
    let mut l: Vec<(String, TerminalStyle)> = Vec::new();
    l.push(span("  q / Ctrl+C    Quit", plain));
    lines.push(l);
    lines.push(Vec::new());
    let mut l: Vec<(String, TerminalStyle)> = Vec::new();
    l.push(span("j/k to scroll, any other key to close", TerminalStyle { dim: false, bold: false, italic: true, fg: Some(ui.muted) }));
    lines.push(l);
    proof {
        let v = lines@.map_values(|l: Vec<(String, TerminalStyle)>| styled_view(l@));
        let t = help_text(*ui);
        assert(v[0] =~= t[0]);
        assert(v[1] =~= t[1]);
        assert(v[2] =~= t[2]);
        assert(v[3] =~= t[3]);
        assert(v[4] =~= t[4]);
        assert(v[5] =~= t[5]);
        assert(v[6] =~= t[6]);
        assert(v[7] =~= t[7]);
        assert(v[8] =~= t[8]);
        assert(v[9] =~= t[9]);
        assert(v[10] =~= t[10]);
        assert(v[11] =~= t[11]);
        assert(v[12] =~= t[12]);
        assert(v[13] =~= t[13]);
        assert(v[14] =~= t[14]);
        assert(v[15] =~= t[15]);
        assert(v[16] =~= t[16]);
        assert(v[17] =~= t[17]);
        assert(v[18] =~= t[18]);
        assert(v[19] =~= t[19]);
        assert(v[20] =~= t[20]);
        assert(v[21] =~= t[21]);
        assert(v[22] =~= t[22]);
        assert(v[23] =~= t[23]);
        assert(v[24] =~= t[24]);
        assert(v[25] =~= t[25]);
        assert(v[26] =~= t[26]);
        assert(v[27] =~= t[27]);
        assert(v[28] =~= t[28]);
        assert(v[29] =~= t[29]);
        assert(v[30] =~= t[30]);
        assert(v[31] =~= t[31]);
        assert(v[32] =~= t[32]);
        assert(v[33] =~= t[33]);
        assert(v[34] =~= t[34]);
        assert(v[35] =~= t[35]);
        assert(v[36] =~= t[36]);
        assert(v[37] =~= t[37]);
        assert(v[38] =~= t[38]);
        assert(v[39] =~= t[39]);
        assert(v[40] =~= t[40]);
        assert(v[41] =~= t[41]);
        assert(v[42] =~= t[42]);
        assert(v[43] =~= t[43]);
        assert(v[44] =~= t[44]);
        assert(v[45] =~= t[45]);
        assert(v[46] =~= t[46]);
        assert(v[47] =~= t[47]);
        assert(v[48] =~= t[48]);
        assert(v[49] =~= t[49]);
        assert(v[50] =~= t[50]);
        assert(v[51] =~= t[51]);
        assert(v =~= t);
    }
    lines
}

/// The scroll position of the help overlay and whether more lines lie above
/// and below: the offset, held to at most the lines that do not fit.
pub open spec fn help_scroll_of(total_lines: int, inner_height: int, offset: int) -> (int, bool, bool) {
    let max_scroll = sat_sub(total_lines, inner_height);
    let scroll = if offset < max_scroll { offset } else { max_scroll };
    (scroll, scroll > 0, scroll < max_scroll)
}

/// Scroll position of the help overlay, and whether lines lie above and below.
pub fn help_scroll(total_lines: usize, inner_height: usize, scroll_offset: usize) -> (r: (usize, bool, bool))
    ensures
        (r.0 as int, r.1, r.2) == help_scroll_of(total_lines as int, inner_height as int, scroll_offset as int),
{
    let max_scroll = total_lines.saturating_sub(inner_height);
    let scroll = if scroll_offset < max_scroll { scroll_offset } else { max_scroll };
    (scroll, scroll > 0, scroll < max_scroll)
}

/// The help overlay's title, with arrows where more lines lie above or below.
pub open spec fn help_title_text(above: bool, below: bool) -> Seq<char> {
    if above && below {
        " Help ↑↓ "@
    } else if above {
        " Help ↑ "@
    } else if below {
        " Help ↓ "@
    } else {
        " Help "@
    }
}

/// The help overlay's title.
pub fn help_title(above: bool, below: bool) -> (r: &'static str)
    ensures
        r@ == help_title_text(above, below),
{
    if above && below {
        " Help ↑↓ "
    } else if above {
        " Help ↑ "
    } else if below {
        " Help ↓ "
    } else {
        " Help "
    }
}


/// `n` copies of `c`.
pub open spec fn repeated(c: char, n: int) -> Seq<char> {
    Seq::new(if n > 0 { n as nat } else { 0 }, |i: int| c)
}

/// Appends `n` copies of `c`.
fn push_repeat(out: &mut Vec<char>, c: char, n: usize)
    ensures
        final(out)@ == old(out)@ + repeated(c, n as int),
{
    let ghost start = out@;
    let mut i: usize = 0;
    while i < n
        invariant
            i <= n,
            out@ == start + repeated(c, i as int),
        decreases n - i,
    {
        out.push(c);
        i = i + 1;
        assert(out@ =~= start + repeated(c, i as int));
    }
}

/// `s` padded with spaces on the right to `w` characters (`{:<w}`).
pub open spec fn pad_right(s: Seq<char>, w: int) -> Seq<char> {
    s + repeated(' ', w - s.len())
}

/// `s` padded with spaces on the left to `w` characters (`{:>w}`).
pub open spec fn pad_left(s: Seq<char>, w: int) -> Seq<char> {
    repeated(' ', w - s.len()) + s
}

fn pad_right_chars(s: &str, w: usize) -> (r: String)
    ensures
        r@ == pad_right(s@, w as int),
{
    let mut out = str_chars(s);
    let n = out.len();
    let k: usize = if n < w { w - n } else { 0 };
    push_repeat(&mut out, ' ', k);
    assert(repeated(' ', k as int) =~= repeated(' ', w - s@.len()));
    string_from_chars(out.as_slice())
}

/// The header row of the aggregation view: each grouping field padded to 15
/// columns, the count column, and spaces for the bar column (as wide as
/// what is left of `width` after 16 columns per field and 8 for the count).
pub open spec fn aggregation_header_text(fields: Seq<Seq<char>>, width: int, ui: UiColors) -> Seq<(Seq<char>, TerminalStyle)> {
    let remaining = sat_sub(width, (fields.len() * 16 + 8) as int);
    fields.map_values(|f: Seq<char>| (" "@ + pad_right(f, 15), text_style(ui.accent, true, false)))
        + seq![(" "@ + pad_left("Count"@, 7), text_style(ui.accent, true, false))]
        + if remaining > 0 { seq![(repeated(' ', remaining), plain_style())] } else { seq![] }
}

/// The header row of the aggregation view.
pub fn aggregation_header(fields: &Vec<String>, width: usize, ui: &UiColors) -> (r: Vec<(String, TerminalStyle)>)
    requires
        fields@.len() * 16 + 8 <= usize::MAX,
    ensures
        styled_view(r@) == aggregation_header_text(fields@.map_values(|f: String| f@), width as int, *ui),
{
    let head = TerminalStyle { dim: false, bold: true, italic: false, fg: Some(ui.accent) };
    let mut spans: Vec<(String, TerminalStyle)> = Vec::new();
    let ghost fv = fields@.map_values(|f: String| f@);
    let mut i: usize = 0;
    while i < fields.len()
        invariant
            i <= fields@.len(),
            fv == fields@.map_values(|f: String| f@),
            head == text_style(ui.accent, true, false),
            styled_view(spans@) == fv.take(i as int).map_values(
                |f: Seq<char>| (" "@ + pad_right(f, 15), text_style(ui.accent, true, false)),
            ),
        decreases fields@.len() - i,
    {
        let mut t = str_chars(" ");
        let p = pad_right_chars(fields[i].as_str(), 15);
        push_str(&mut t, p.as_str());
        let ghost before = styled_view(spans@);
        let ghost newv = (" "@ + pad_right(fv[i as int], 15), text_style(ui.accent, true, false));
        spans.push((string_from_chars(t.as_slice()), head));
        proof {
            assert(fv[i as int] == fields@[i as int]@);
            assert(styled_view(spans@) =~= before.push(newv));
            assert(fv.take(i + 1).map_values(
                |f: Seq<char>| (" "@ + pad_right(f, 15), text_style(ui.accent, true, false)),
            ) =~= fv.take(i as int).map_values(
                |f: Seq<char>| (" "@ + pad_right(f, 15), text_style(ui.accent, true, false)),
            ).push(newv));
        }
        i = i + 1;
        assert(styled_view(spans@) =~= fv.take(i as int).map_values(
            |f: Seq<char>| (" "@ + pad_right(f, 15), text_style(ui.accent, true, false)),
        ));
    }
    assert(fv.take(fields@.len() as int) =~= fv);
    let mut c = str_chars(" ");
    let count_head = "Count";
    push_repeat(&mut c, ' ', 2);
    push_str(&mut c, count_head);
    proof {
        reveal_strlit("Count");
        reveal_strlit(" ");
        assert(c@ =~= " "@ + pad_left("Count"@, 7));
    }
    spans.push((string_from_chars(c.as_slice()), head));
    let used = fields.len() * 16 + 8;
    let remaining: usize = if width > used { width - used } else { 0 };
    if remaining > 0 {
        let mut sp: Vec<char> = Vec::new();
        push_repeat(&mut sp, ' ', remaining);
        spans.push((string_from_chars(sp.as_slice()), TerminalStyle { dim: false, bold: false, italic: false, fg: None }));
    }
    assert(styled_view(spans@) =~= aggregation_header_text(fv, width as int, *ui));
    spans
}

/// A field value in its aggregation column: cut to 14 characters when it is
/// longer than 14 bytes, else padded to 14, after one space.
pub open spec fn aggregation_cell(value: Seq<char>) -> Seq<char> {
    if encode_utf8(value).len() > 14 {
        " "@ + value.take(if value.len() < 14 { value.len() as int } else { 14 })
    } else {
        " "@ + pad_right(value, 14)
    }
}

/// The length of the filled part of a bar: the count's share of `bar_max`
/// columns against the largest count, at least one column.
pub open spec fn bar_filled(count: int, max_count: int, bar_max: int) -> int {
    let f = (count * bar_max) / max_count;
    if f < 1 { 1 } else { f }
}

/// A data row of the aggregation view: each field value in its column (in
/// the foreground color) followed by a space, the count right-aligned to 7
/// columns (in the primary color), and, when more than 2 columns are left,
/// a bar of at most 20 columns: filled blocks in the highlight color for
/// the count's share, light shade in the muted color for the rest.
pub open spec fn aggregation_row_text(
    values: Seq<Seq<char>>,
    count: int,
    max_count: int,
    width: int,
    ui: UiColors,
) -> Seq<(Seq<char>, TerminalStyle)> {
    let cells = Seq::new(
        values.len() * 2,
        |k: int|
            if k % 2 == 0 {
                (aggregation_cell(values[k / 2]), text_style(ui.fg, false, false))
            } else {
                (" "@, plain_style())
            },
    );
    let bar_space = sat_sub(width, (values.len() * 16 + 9) as int);
    let bar_max = if bar_space < 20 { bar_space } else { 20 };
    let filled = bar_filled(count, max_count, bar_max);
    cells + seq![(pad_left(decimal(count as nat), 7), text_style(ui.primary, false, false))] + if bar_space > 2 {
        seq![
            (" "@, plain_style()),
            (repeated('\u{2588}', filled), text_style(ui.highlight, false, false)),
            (repeated('\u{2591}', sat_sub(bar_max, filled)), text_style(ui.muted, false, false)),
        ]
    } else {
        seq![]
    }
}

fn aggregation_cell_text(value: &str) -> (r: String)
    ensures
        r@ == aggregation_cell(value@),
{
    let mut t = str_chars(" ");
    proof {
        reveal_strlit(" ");
    }
    if value.as_bytes().len() > 14 {
        let cs = str_chars(value);
        let n: usize = if cs.len() < 14 { cs.len() } else { 14 };
        let mut i: usize = 0;
        let ghost t0 = t@;
        while i < n
            invariant
                i <= n <= cs@.len(),
                cs@ == value@,
                t@ == t0 + cs@.take(i as int),
            decreases n - i,
        {
            t.push(cs[i]);
            i = i + 1;
            assert(t@ =~= t0 + cs@.take(i as int));
        }
        proof {
            assert(value.spec_bytes() == encode_utf8(value@));
        }
    } else {
        let p = pad_right_chars(value, 14);
        push_str(&mut t, p.as_str());
        proof {
            assert(value.spec_bytes() == encode_utf8(value@));
        }
    }
    string_from_chars(t.as_slice())
}

/// A data row of the aggregation view for a group with the given field
/// values and count, against the largest count.
pub fn aggregation_row(values: &Vec<String>, count: usize, max_count: usize, width: usize, ui: &UiColors) -> (r: Vec<
    (String, TerminalStyle),
>)
    requires
        max_count > 0,
        values@.len() * 16 + 9 <= usize::MAX,
        count * 20 <= usize::MAX,
    ensures
        styled_view(r@) == aggregation_row_text(
            values@.map_values(|v: String| v@),
            count as int,
            max_count as int,
            width as int,
            *ui,
        ),
{
    let ghost vv = values@.map_values(|v: String| v@);
    let plain = TerminalStyle { dim: false, bold: false, italic: false, fg: None };
    let cell_style = TerminalStyle { dim: false, bold: false, italic: false, fg: Some(ui.fg) };
    let ghost cells = Seq::new(
        vv.len() * 2,
        |k: int|
            if k % 2 == 0 {
                (aggregation_cell(vv[k / 2]), text_style(ui.fg, false, false))
            } else {
                (" "@, plain_style())
            },
    );
    let mut spans: Vec<(String, TerminalStyle)> = Vec::new();
    let mut i: usize = 0;
    while i < values.len()
        invariant
            i <= values@.len(),
            vv == values@.map_values(|v: String| v@),
            cells.len() == vv.len() * 2,
            cell_style == text_style(ui.fg, false, false),
            plain == plain_style(),
            forall|k: int| 0 <= k < cells.len() ==> #[trigger] cells[k] == if k % 2 == 0 {
                (aggregation_cell(vv[k / 2]), text_style(ui.fg, false, false))
            } else {
                (" "@, plain_style())
            },
            styled_view(spans@) == cells.take(2 * i),
        decreases values@.len() - i,
    {
        let c = aggregation_cell_text(values[i].as_str());
        let ghost before = styled_view(spans@);
        spans.push((c, cell_style));
        spans.push((string_from_chars(str_chars(" ").as_slice()), plain));
        proof {
            assert(vv[i as int] == values@[i as int]@);
            assert(styled_view(spans@) =~= before.push(cells[2 * i as int]).push(cells[2 * i + 1]));
            assert(cells.take(2 * i + 2) =~= cells.take(2 * i).push(cells[2 * i as int]).push(cells[2 * i + 1]));
            assert(cells[2 * i as int] == (aggregation_cell(vv[i as int]), text_style(ui.fg, false, false)));
            assert(cells[2 * i + 1] == (" "@, plain_style()));
        }
        i = i + 1;
        assert(styled_view(spans@) =~= cells.take(2 * i));
    }
    assert(cells.take((2 * values@.len()) as int) =~= cells);
    let mut cnt: Vec<char> = Vec::new();
    let digits = {
        let mut d: Vec<char> = Vec::new();
        push_decimal(&mut d, count as u128);
        d
    };
    let dn = digits.len();
    push_repeat(&mut cnt, ' ', if dn < 7 { 7 - dn } else { 0 });
    let mut j: usize = 0;
    let ghost c0 = cnt@;
    while j < dn
        invariant
            j <= dn == digits@.len(),
            cnt@ == c0 + digits@.take(j as int),
        decreases dn - j,
    {
        cnt.push(digits[j]);
        j = j + 1;
        assert(cnt@ =~= c0 + digits@.take(j as int));
    }
    assert(digits@.take(dn as int) =~= digits@);
    assert(cnt@ =~= pad_left(decimal(count as nat), 7)) by {
        assert(repeated(' ', (if dn < 7 { 7 - dn } else { 0 }) as int) =~= repeated(' ', 7 - digits@.len()));
    }
    spans.push((string_from_chars(cnt.as_slice()), TerminalStyle { dim: false, bold: false, italic: false, fg: Some(ui.primary) }));
    let used = values.len() * 16 + 9;
    let bar_space: usize = if width > used { width - used } else { 0 };
    if bar_space > 2 {
        let bar_max: usize = if bar_space < 20 { bar_space } else { 20 };
        assert(count * bar_max <= count * 20) by (nonlinear_arith)
            requires
                bar_max <= 20,
        ;
        let f = (count * bar_max) / max_count;
        let filled: usize = if f < 1 { 1 } else { f };
        let empty: usize = if bar_max > filled { bar_max - filled } else { 0 };
        let mut fb: Vec<char> = Vec::new();
        push_repeat(&mut fb, '\u{2588}', filled);
        let mut eb: Vec<char> = Vec::new();
        push_repeat(&mut eb, '\u{2591}', empty);
        spans.push((string_from_chars(str_chars(" ").as_slice()), plain));
        spans.push((string_from_chars(fb.as_slice()), TerminalStyle { dim: false, bold: false, italic: false, fg: Some(ui.highlight) }));
        spans.push((string_from_chars(eb.as_slice()), TerminalStyle { dim: false, bold: false, italic: false, fg: Some(ui.muted) }));
    }
    assert(styled_view(spans@) =~= aggregation_row_text(vv, count as int, max_count as int, width as int, *ui));
    spans
}


/// The line under the status in the aggregation view: the selected row out
/// of the groups and the keys (in magenta), or a note while the groups are
/// still being counted (in dark gray).
pub open spec fn aggregation_status_text(rows: Option<(usize, usize)>) -> (Seq<char>, TerminalStyle) {
    match rows {
        Some((selected, groups)) => (
            " Row "@ + decimal((selected + 1) as nat) + "/"@ + decimal(groups as nat)
                + " | Enter: drill down | Esc: back | / - re-filter"@,
            text_style(Color::Magenta, false, false),
        ),
        None => (" Computing aggregation..."@, text_style(Color::DarkGray, false, false)),
    }
}

/// The line under the status in the aggregation view, given the selected
/// row and the number of groups once they are counted.
pub fn aggregation_status_line(rows: Option<(usize, usize)>) -> (r: (String, TerminalStyle))
    requires
        rows matches Some((selected, _)) ==> selected + 1 <= usize::MAX,
    ensures
        (r.0@, r.1) == aggregation_status_text(rows),
{
    match rows {
        Some((selected, groups)) => {
            let mut t = str_chars(" Row ");
            push_decimal(&mut t, (selected + 1) as u128);
            push_str(&mut t, "/");
            push_decimal(&mut t, groups as u128);
            push_str(&mut t, " | Enter: drill down | Esc: back | / - re-filter");
            (string_from_chars(t.as_slice()), TerminalStyle { dim: false, bold: false, italic: false, fg: Some(Color::Magenta) })
        },
        None => (
            string_from_chars(str_chars(" Computing aggregation...").as_slice()),
            TerminalStyle { dim: false, bold: false, italic: false, fg: Some(Color::DarkGray) },
        ),
    }
}


/// The line under the status: the aggregation line in aggregation view, else
/// a recent status message (in green), else the key help (in dark gray).
pub open spec fn status_bottom_text(
    mode: ViewMode,
    rows: Option<(usize, usize)>,
    message: Option<Seq<char>>,
    tab_count: usize,
) -> (Seq<char>, TerminalStyle) {
    if mode == ViewMode::Aggregation {
        aggregation_status_text(rows)
    } else {
        match message {
            Some(m) => (" "@ + m, text_style(Color::Green, false, false)),
            None => (
                if tab_count > 1 {
                    " Tab/Shift+Tab - Switch | 1-9 - Select | ? - Help"@
                } else {
                    " q - Quit | j/k - Navigate | g/G - Start/End | / - Filter | ? - Help"@
                },
                text_style(Color::DarkGray, false, false),
            ),
        }
    }
}

/// The line under the status, given the view mode, the selected row and
/// group count of an aggregation once counted, the status message still to
/// show (if any) and the number of tabs.
pub fn status_bottom_line(mode: ViewMode, rows: Option<(usize, usize)>, message: Option<&str>, tab_count: usize) -> (r: (
    String,
    TerminalStyle,
))
    requires
        rows matches Some((selected, _)) ==> selected + 1 <= usize::MAX,
    ensures
        (r.0@, r.1) == status_bottom_text(
            mode,
            rows,
            match message {
                Some(m) => Some(m@),
                None => None,
            },
            tab_count,
        ),
{
    match mode {
        ViewMode::Aggregation => aggregation_status_line(rows),
        _ => match message {
            Some(m) => {
                let mut t = str_chars(" ");
                push_str(&mut t, m);
                (string_from_chars(t.as_slice()), TerminalStyle { dim: false, bold: false, italic: false, fg: Some(Color::Green) })
            },
            None => (
                string_from_chars(str_chars(status_help_text(tab_count)).as_slice()),
                TerminalStyle { dim: false, bold: false, italic: false, fg: Some(Color::DarkGray) },
            ),
        },
    }
}

/// Rows the log view has for lines, and the widths of the line prefix and
/// the content, for an area of `width` x `height` (borders take one column
/// or row on each side; the prefix is `{:6} |` and a space, with room for a
/// source tag in a combined view).
pub open spec fn log_view_layout_of(width: u16, height: u16, is_combined: bool) -> (int, int, int, int) {
    let visible_height = sat_sub(height as int, 2);
    let available_width = sat_sub(width as int, 2);
    let prefix_width = if is_combined { 17int } else { 9int };
    (visible_height, available_width, prefix_width, sat_sub(available_width, prefix_width))
}

/// The rows, available width, prefix width and content width of the log view.
pub fn log_view_layout(width: u16, height: u16, is_combined: bool) -> (r: (usize, usize, usize, usize))
    ensures
        (r.0 as int, r.1 as int, r.2 as int, r.3 as int) == log_view_layout_of(width, height, is_combined),
{
    let visible_height = height.saturating_sub(2) as usize;
    let available_width = width.saturating_sub(2) as usize;
    let prefix_width: usize = if is_combined { 9 + 8 } else { 9 };
    let content_width = available_width.saturating_sub(prefix_width);
    (visible_height, available_width, prefix_width, content_width)
}

/// How many items from the start of `heights` the view shows in `height`
/// rows, `used` rows being taken already: items are taken while they fit,
/// and the first one always.
pub open spec fn rows_taken(heights: Seq<usize>, height: int, used: int) -> int
    decreases heights.len(),
{
    if heights.len() == 0 {
        0
    } else if used > 0 && used + heights[0] > height {
        0
    } else {
        1 + rows_taken(heights.drop_first(), height, used + heights[0])
    }
}

/// How many of the items from `start` on (with the given row heights) the
/// log view shows in `height` rows.
pub fn visible_rows(heights: &Vec<usize>, start: usize, height: usize) -> (r: usize)
    ensures
        r == rows_taken(if start <= heights@.len() { heights@.skip(start as int) } else { seq![] }, height as int, 0),
{
    let n = heights.len();
    if start >= n {
        proof {
            if start == n {
                assert(heights@.skip(start as int) =~= Seq::<usize>::empty());
            }
        }
        return 0;
    }
    let ghost all = heights@.skip(start as int);
    let mut used: usize = 0;
    let mut i: usize = start;
    let mut count: usize = 0;
    while i < n
        invariant
            start <= i <= n,
            n == heights@.len(),
            all == heights@.skip(start as int),
            count == i - start,
            rows_taken(all, height as int, 0) == count + rows_taken(heights@.skip(i as int), height as int, used as int),
        decreases n - i,
    {
        let h = heights[i];
        proof {
            assert(heights@.skip(i as int)[0] == h);
            assert(heights@.skip(i as int).drop_first() =~= heights@.skip(i + 1));
        }
        if used > 0 && (used > height || h > height - used) {
            return count;
        }
        used = used + h;
        count = count + 1;
        i = i + 1;
    }
    proof {
        assert(heights@.skip(n as int) =~= Seq::<usize>::empty());
    }
    count
}


/// The severities of the stats chart in order, with their colors.
pub open spec fn severity_label(k: int) -> Seq<char> {
    if k == 0 {
        "Fatal"@
    } else if k == 1 {
        "Error"@
    } else if k == 2 {
        "Warn"@
    } else if k == 3 {
        "Info"@
    } else if k == 4 {
        "Debug"@
    } else {
        "Trace"@
    }
}

pub open spec fn severity_color(k: int) -> Color {
    if k == 0 {
        Color::Magenta
    } else if k == 1 {
        Color::Red
    } else if k == 2 {
        Color::Yellow
    } else if k == 3 {
        Color::Green
    } else if k == 4 {
        Color::Cyan
    } else {
        Color::DarkGray
    }
}

fn severity_label_text(k: usize) -> (r: &'static str)
    ensures
        r@ == severity_label(k as int),
{
    if k == 0 {
        "Fatal"
    } else if k == 1 {
        "Error"
    } else if k == 2 {
        "Warn"
    } else if k == 3 {
        "Info"
    } else if k == 4 {
        "Debug"
    } else {
        "Trace"
    }
}

fn severity_color_of(k: usize) -> (r: Color)
    ensures
        r == severity_color(k as int),
{
    if k == 0 {
        Color::Magenta
    } else if k == 1 {
        Color::Red
    } else if k == 2 {
        Color::Yellow
    } else if k == 3 {
        Color::Green
    } else if k == 4 {
        Color::Cyan
    } else {
        Color::DarkGray
    }
}

/// The largest of the counts, at least 1.
pub open spec fn max_count_of(counts: Seq<(u32, String)>) -> int
    decreases counts.len(),
{
    if counts.len() == 0 {
        1
    } else {
        let m = max_count_of(counts.drop_last());
        if counts.last().0 > m { counts.last().0 as int } else { m }
    }
}

proof fn lemma_max_count(counts: Seq<(u32, String)>)
    ensures
        max_count_of(counts) >= 1,
        max_count_of(counts) <= u32::MAX,
        forall|i: int| 0 <= i < counts.len() ==> #[trigger] counts[i].0 <= max_count_of(counts),
    decreases counts.len(),
{
    if counts.len() > 0 {
        lemma_max_count(counts.drop_last());
        assert forall|i: int| 0 <= i < counts.len() implies #[trigger] counts[i].0 <= max_count_of(counts) by {
            if i < counts.len() - 1 {
                assert(counts[i] == counts.drop_last()[i]);
            }
        }
    }
}

/// The chart row of severity `k` with a count: its label padded to 5, a bar
/// of 10 columns (the count's share against the largest count, at least one
/// block, in the severity's color) and the count's text.
pub open spec fn severity_row(k: int, count: int, count_text: Seq<char>, max: int) -> Seq<(Seq<char>, TerminalStyle)> {
    let filled = bar_filled(count, max, 10);
    seq![
        (" "@ + pad_right(severity_label(k), 5) + " "@, plain_style()),
        (repeated('\u{2588}', filled), text_style(severity_color(k), false, false)),
        (repeated('\u{2591}', 10 - filled), text_style(Color::DarkGray, false, false)),
        (" "@, plain_style()),
        (count_text, text_style(Color::DarkGray, false, false)),
    ]
}

/// The chart rows of the first `n` severities, those with a count.
pub open spec fn severity_rows(counts: Seq<(u32, String)>, n: int, max: int) -> Seq<Seq<(Seq<char>, TerminalStyle)>>
    decreases n,
{
    if n <= 0 {
        seq![]
    } else {
        let c = counts[n - 1];
        severity_rows(counts, n - 1, max) + if c.0 > 0 {
            seq![severity_row(n - 1, c.0 as int, c.1@, max)]
        } else {
            seq![]
        }
    }
}

/// The stats panel: a loading note, the line counts (total, and filtered
/// when a filter is set), the index size and ingestion speed when given
/// (their texts formatted by the caller), and the severity chart.
pub open spec fn stats_text(
    total: usize,
    filtered: usize,
    is_filtered: bool,
    loading: bool,
    index_size: Option<Seq<char>>,
    speed: Option<Seq<char>>,
    severity: Seq<(u32, String)>,
) -> Seq<Seq<(Seq<char>, TerminalStyle)>> {
    stats_head(total, filtered, is_filtered, loading, index_size, speed) + severity_rows(
        severity,
        severity.len() as int,
        max_count_of(severity),
    )
}

/// The stats panel above the severity chart.
pub open spec fn stats_head(
    total: usize,
    filtered: usize,
    is_filtered: bool,
    loading: bool,
    index_size: Option<Seq<char>>,
    speed: Option<Seq<char>>,
) -> Seq<Seq<(Seq<char>, TerminalStyle)>> {
    stats_load(loading) + stats_counts(total, filtered, is_filtered) + stats_index(index_size) + stats_speed(speed)
}

pub open spec fn stats_load(loading: bool) -> Seq<Seq<(Seq<char>, TerminalStyle)>> {
    if loading {
        seq![seq![(" Loading... "@, text_style(Color::Magenta, false, false))]]
    } else {
        seq![]
    }
}

pub open spec fn stats_counts(total: usize, filtered: usize, is_filtered: bool) -> Seq<Seq<(Seq<char>, TerminalStyle)>> {
    if is_filtered {
        seq![
            seq![(" Lines:    "@, plain_style()), (decimal(total as nat), text_style(Color::White, false, false))],
            seq![(" Filtered: "@, plain_style()), (decimal(filtered as nat), text_style(Color::Cyan, false, false))],
        ]
    } else {
        seq![seq![(" Lines: "@, plain_style()), (decimal(total as nat), text_style(Color::White, false, false))]]
    }
}

pub open spec fn stats_index(index_size: Option<Seq<char>>) -> Seq<Seq<(Seq<char>, TerminalStyle)>> {
    match index_size {
        Some(t) => seq![seq![(" Index: "@, plain_style()), (t, text_style(Color::DarkGray, false, false))]],
        None => seq![],
    }
}

pub open spec fn stats_speed(speed: Option<Seq<char>>) -> Seq<Seq<(Seq<char>, TerminalStyle)>> {
    match speed {
        Some(t) => seq![seq![(" Speed: "@, plain_style()), (t, text_style(Color::Green, false, false))]],
        None => seq![],
    }
}

fn text_line(a: &str, sa: TerminalStyle, b: String, sb: TerminalStyle) -> (r: Vec<(String, TerminalStyle)>)
    ensures
        styled_view(r@) == seq![(a@, sa), (b@, sb)],
{
    let mut l: Vec<(String, TerminalStyle)> = Vec::new();
    l.push(span(a, sa));
    l.push((b, sb));
    assert(styled_view(l@) =~= seq![(a@, sa), (b@, sb)]);
    l
}

fn decimal_string(n: usize) -> (r: String)
    ensures
        r@ == decimal(n as nat),
{
    let mut t: Vec<char> = Vec::new();
    push_decimal(&mut t, n as u128);
    string_from_chars(t.as_slice())
}

/// The lines of the stats panel. `severity` holds the counts of fatal,
/// error, warn, info, debug and trace lines with their formatted texts, or
/// nothing when there is no index.
pub fn stats_lines(
    total: usize,
    filtered: usize,
    is_filtered: bool,
    loading: bool,
    index_size: Option<&str>,
    speed: Option<&str>,
    severity: &Vec<(u32, String)>,
) -> (r: Vec<Vec<(String, TerminalStyle)>>)
    requires
        severity@.len() <= 6,
    ensures
        r@.map_values(|l: Vec<(String, TerminalStyle)>| styled_view(l@)) == stats_text(
            total,
            filtered,
            is_filtered,
            loading,
            match index_size {
                Some(t) => Some(t@),
                None => None,
            },
            match speed {
                Some(t) => Some(t@),
                None => None,
            },
            severity@,
        ),
{
    let plain = TerminalStyle { dim: false, bold: false, italic: false, fg: None };
    let ghost ix = match index_size {
        Some(t) => Some(t@),
        None => None,
    };
    let ghost sp = match speed {
        Some(t) => Some(t@),
        None => None,
    };
    let mut lines: Vec<Vec<(String, TerminalStyle)>> = Vec::new();
    if loading {
        let mut l: Vec<(String, TerminalStyle)> = Vec::new();
        l.push(span(" Loading... ", TerminalStyle { dim: false, bold: false, italic: false, fg: Some(Color::Magenta) }));
        assert(styled_view(l@) =~= seq![(" Loading... "@, text_style(Color::Magenta, false, false))]);
        lines.push(l);
    }
    assert(lines@.map_values(|l: Vec<(String, TerminalStyle)>| styled_view(l@)) =~= stats_load(loading));
    let white = TerminalStyle { dim: false, bold: false, italic: false, fg: Some(Color::White) };
    if is_filtered {
        lines.push(text_line(" Lines:    ", plain, decimal_string(total), white));
        lines.push(text_line(" Filtered: ", plain, decimal_string(filtered), TerminalStyle { dim: false, bold: false, italic: false, fg: Some(Color::Cyan) }));
    } else {
        lines.push(text_line(" Lines: ", plain, decimal_string(total), white));
    }
    assert(lines@.map_values(|l: Vec<(String, TerminalStyle)>| styled_view(l@)) =~= stats_load(loading) + stats_counts(total, filtered, is_filtered));
    let gray = TerminalStyle { dim: false, bold: false, italic: false, fg: Some(Color::DarkGray) };
    match index_size {
        Some(t) => lines.push(text_line(" Index: ", plain, string_from_chars(str_chars(t).as_slice()), gray)),
        None => {},
    }
    assert(lines@.map_values(|l: Vec<(String, TerminalStyle)>| styled_view(l@)) =~= stats_load(loading) + stats_counts(total, filtered, is_filtered) + stats_index(ix));
    match speed {
        Some(t) => lines.push(text_line(" Speed: ", plain, string_from_chars(str_chars(t).as_slice()), TerminalStyle { dim: false, bold: false, italic: false, fg: Some(Color::Green) })),
        None => {},
    }
    let ghost head = lines@.map_values(|l: Vec<(String, TerminalStyle)>| styled_view(l@));
    assert(head =~= stats_head(total, filtered, is_filtered, loading, ix, sp));
    let ghost sv = severity@;
    let mut max: u32 = 1;
    let mut j: usize = 0;
    while j < severity.len()
        invariant
            j <= severity@.len(),
            max as int == max_count_of(severity@.take(j as int)),
        decreases severity@.len() - j,
    {
        proof {
            assert(severity@.take(j + 1).drop_last() =~= severity@.take(j as int));
        }
        if severity[j].0 > max {
            max = severity[j].0;
        }
        j = j + 1;
    }
    proof {
        assert(severity@.take(severity@.len() as int) =~= severity@);
        lemma_max_count(severity@);
    }
    let mut k: usize = 0;
    while k < severity.len()
        invariant
            k <= severity@.len() <= 6,
            sv == severity@,
            max as int == max_count_of(sv),
            max >= 1,
            plain == plain_style(),
            gray == text_style(Color::DarkGray, false, false),
            forall|i: int| 0 <= i < sv.len() ==> sv[i].0 <= max,
            lines@.map_values(|l: Vec<(String, TerminalStyle)>| styled_view(l@)) == head + severity_rows(sv, k as int, max as int),
        decreases severity@.len() - k,
    {
        let count = severity[k].0;
        if count > 0 {
            let filled0 = ((count as u64) * 10) / (max as u64);
            proof {
                assert(count <= max);
                assert(filled0 <= 10) by (nonlinear_arith)
                    requires
                        filled0 == (count * 10) / (max as int),
                        count <= max,
                        max >= 1,
                ;
            }
            let filled: usize = if filled0 < 1 { 1 } else { filled0 as usize };
            let mut lab = str_chars(" ");
            let name = severity_label_text(k);
            push_str(&mut lab, name);
            let nlen = str_chars(name).len();
            push_repeat(&mut lab, ' ', if nlen < 5 { 5 - nlen } else { 0 });
            push_str(&mut lab, " ");
            let mut fb: Vec<char> = Vec::new();
            push_repeat(&mut fb, '\u{2588}', filled);
            let mut eb: Vec<char> = Vec::new();
            push_repeat(&mut eb, '\u{2591}', 10 - filled);
            let mut l: Vec<(String, TerminalStyle)> = Vec::new();
            l.push((string_from_chars(lab.as_slice()), plain));
            l.push((string_from_chars(fb.as_slice()), TerminalStyle { dim: false, bold: false, italic: false, fg: Some(severity_color_of(k)) }));
            l.push((string_from_chars(eb.as_slice()), gray));
            l.push(span(" ", plain));
            l.push((string_from_chars(str_chars(severity[k].1.as_str()).as_slice()), gray));
            let ghost before = lines@.map_values(|l: Vec<(String, TerminalStyle)>| styled_view(l@));
            proof {
                assert(filled as int == bar_filled(count as int, max as int, 10)) by (nonlinear_arith)
                    requires
                        filled0 == (count * 10) / (max as int),
                        filled == (if filled0 < 1 { 1 } else { filled0 as usize }),
                        count <= max,
                        max >= 1,
                ;
                assert(lab@ =~= " "@ + pad_right(severity_label(k as int), 5) + " "@);
                assert(styled_view(l@)[0] == (" "@ + pad_right(severity_label(k as int), 5) + " "@, plain_style()));
                assert(styled_view(l@)[1] == (repeated('\u{2588}', filled as int), text_style(severity_color(k as int), false, false)));
                assert(styled_view(l@)[2] == (repeated('\u{2591}', 10 - filled), text_style(Color::DarkGray, false, false)));
                assert(styled_view(l@)[4] == (sv[k as int].1@, text_style(Color::DarkGray, false, false)));
                assert(repeated(' ', (if nlen < 5 { 5 - nlen } else { 0 }) as int) =~= repeated(' ', 5 - severity_label(k as int).len()));
                assert(styled_view(l@) =~= severity_row(k as int, count as int, sv[k as int].1@, max as int));
            }
            lines.push(l);
            proof {
                assert(lines@.map_values(|l: Vec<(String, TerminalStyle)>| styled_view(l@)) =~= before.push(
                    severity_row(k as int, count as int, sv[k as int].1@, max as int),
                ));
            }
        }
        k = k + 1;
        proof {
            assert(lines@.map_values(|l: Vec<(String, TerminalStyle)>| styled_view(l@)) =~= head + severity_rows(sv, k as int, max as int));
        }
    }
    proof {
        let v = lines@.map_values(|l: Vec<(String, TerminalStyle)>| styled_view(l@));
        assert(v =~= stats_text(
            total,
            filtered,
            is_filtered,
            loading,
            match index_size {
                Some(t) => Some(t@),
                None => None,
            },
            match speed {
                Some(t) => Some(t@),
                None => None,
            },
            severity@,
        ));
    }
    lines
}


/// Where a source in the side panel comes from; each kind is a category.
#[derive(Debug, Clone, Copy, PartialEq, Eq, Structural)]
pub enum SourceType {
    ProjectSource,
    GlobalSource,
    Global,
    File,
    Pipe,
}

/// The number of a category (its place among the kinds).
pub open spec fn source_type_index(t: SourceType) -> int {
    match t {
        SourceType::ProjectSource => 0,
        SourceType::GlobalSource => 1,
        SourceType::Global => 2,
        SourceType::File => 3,
        SourceType::Pipe => 4,
    }
}

fn source_type_number(t: SourceType) -> (r: usize)
    ensures
        r == source_type_index(t),
{
    match t {
        SourceType::ProjectSource => 0,
        SourceType::GlobalSource => 1,
        SourceType::Global => 2,
        SourceType::File => 3,
        SourceType::Pipe => 4,
    }
}

/// The heading of a category.
pub open spec fn source_type_name(t: SourceType) -> Seq<char> {
    match t {
        SourceType::ProjectSource => "Project Sources"@,
        SourceType::GlobalSource => "Global Sources"@,
        SourceType::Global => "Captured"@,
        SourceType::File => "Files"@,
        SourceType::Pipe => "Pipes"@,
    }
}

fn source_type_heading(t: SourceType) -> (r: &'static str)
    ensures
        r@ == source_type_name(t),
{
    match t {
        SourceType::ProjectSource => "Project Sources",
        SourceType::GlobalSource => "Global Sources",
        SourceType::Global => "Captured",
        SourceType::File => "Files",
        SourceType::Pipe => "Pipes",
    }
}

/// What is selected in the source tree: a category, or the source at a
/// place in a category.
#[derive(Debug, Clone, Copy, PartialEq, Eq, Structural)]
pub enum TreeSelection {
    Category(SourceType),
    Item(SourceType, usize),
}

/// A source as the side panel shows it. `meta` is its line count and file
/// size, formatted by the caller.
pub struct SourceRow {
    pub name: String,
    pub active: bool,
    pub disabled: bool,
    pub loading: bool,
    pub filtered: bool,
    pub follow: bool,
    pub status: Option<SourceStatus>,
    pub meta: String,
}

/// A span style in the side panel: colors and boldness.
#[derive(Debug, Clone, Copy, PartialEq, Eq, Structural)]
pub struct PanelStyle {
    pub fg: Option<Color>,
    pub bg: Option<Color>,
    pub bold: bool,
}

pub open spec fn panel_fg(c: Color) -> PanelStyle {
    PanelStyle { fg: Some(c), bg: None, bold: false }
}

/// The style of a category heading: cyan and bold, on dark gray when
/// selected.
pub open spec fn heading_style(selected: bool) -> PanelStyle {
    PanelStyle { fg: Some(Color::Cyan), bg: if selected { Some(Color::DarkGray) } else { None }, bold: true }
}

/// The style of a source's line: gray when its file is gone, white and bold
/// on dark gray when selected, yellow and bold when it is the active tab,
/// white otherwise.
pub open spec fn row_style(row: SourceRow, selected: bool) -> PanelStyle {
    if row.disabled {
        panel_fg(Color::DarkGray)
    } else if selected {
        PanelStyle { fg: Some(Color::White), bg: Some(Color::DarkGray), bold: true }
    } else if row.active {
        PanelStyle { fg: Some(Color::Yellow), bg: None, bold: true }
    } else {
        panel_fg(Color::White)
    }
}

/// The source name as the panel shows it: names longer (in bytes) than the
/// room are cut at a character boundary 3 bytes before it and get `...`.
pub open spec fn row_name(name: Seq<char>, max_len: int) -> Seq<char> {
    let b = encode_utf8(name);
    if b.len() > max_len {
        decode_utf8(b.subrange(0, floor_char_boundary(b, sat_sub(max_len, 3)))) + "..."@
    } else {
        name
    }
}

/// Display width of the spans, added up (held at `usize::MAX`).
pub open spec fn spans_width(spans: Seq<(Seq<char>, PanelStyle)>) -> int
    decreases spans.len(),
{
    if spans.len() == 0 {
        0
    } else {
        let w = spans_width(spans.drop_last()) + crate::text_wrap::unicode_str_width(spans.last().0);
        if w > usize::MAX { usize::MAX as int } else { w }
    }
}

/// The spans of a source's line before its metadata: number (1 to 9, or a
/// space), `>` for the active tab, the name, then the loading, filter,
/// follow and status marks.
pub open spec fn row_spans(row: SourceRow, number: int, selected: bool, width: int) -> Seq<(Seq<char>, PanelStyle)> {
    let num = if number < 9 { decimal((number + 1) as nat) } else { " "@ };
    let ind = if row.active { ">"@ } else { " "@ };
    let first = seq![("  "@ + num + ind + " "@ + row_name(row.name@, sat_sub(width, 8)), row_style(row, selected))];
    let a = if row.loading { first.push((" ⟳"@, panel_fg(Color::Magenta))) } else { first };
    let b = if row.filtered { a.push((" *"@, panel_fg(Color::Cyan))) } else { a };
    let c = if row.follow { b.push((" F"@, panel_fg(Color::Green))) } else { b };
    match row.status {
        Some(SourceStatus::Active) => c.push((" ●"@, panel_fg(Color::Green))),
        Some(SourceStatus::Ended) => c.push((" ○"@, panel_fg(Color::DarkGray))),
        None => c,
    }
}

/// A source's line: its spans, and as much of its metadata (in dark gray)
/// as fits in the panel.
pub open spec fn row_line(row: SourceRow, number: int, selected: bool, width: int) -> Seq<(Seq<char>, PanelStyle)> {
    let s = row_spans(row, number, selected, width);
    let remaining = sat_sub(sat_sub(width, 2), spans_width(s));
    if remaining > 0 {
        s.push((row.meta@.take(if remaining < row.meta@.len() { remaining } else { row.meta@.len() as int }), panel_fg(Color::DarkGray)))
    } else {
        s
    }
}

pub open spec fn panel_view(v: Seq<(String, PanelStyle)>) -> Seq<(Seq<char>, PanelStyle)> {
    v.map_values(|sp: (String, PanelStyle)| (sp.0@, sp.1))
}

fn panel_span(text: &str, style: PanelStyle) -> (r: (String, PanelStyle))
    ensures
        r.0@ == text@,
        r.1 == style,
{
    (string_from_chars(str_chars(text).as_slice()), style)
}

fn row_style_of(row: &SourceRow, selected: bool) -> (r: PanelStyle)
    ensures
        r == row_style(*row, selected),
{
    if row.disabled {
        PanelStyle { fg: Some(Color::DarkGray), bg: None, bold: false }
    } else if selected {
        PanelStyle { fg: Some(Color::White), bg: Some(Color::DarkGray), bold: true }
    } else if row.active {
        PanelStyle { fg: Some(Color::Yellow), bg: None, bold: true }
    } else {
        PanelStyle { fg: Some(Color::White), bg: None, bold: false }
    }
}

fn row_name_chars(name: &str, max_len: usize) -> (r: Vec<char>)
    ensures
        r@ == row_name(name@, max_len as int),
{
    if name.as_bytes().len() > max_len {
        let cut: usize = if max_len >= 3 { max_len - 3 } else { 0 };
        let mut t = str_chars(prefix_at_boundary(name, cut).as_str());
        push_str(&mut t, "...");
        proof {
            assert(name.spec_bytes() == encode_utf8(name@));
            assert(sat_sub(max_len as int, 3) == cut);
        }
        t
    } else {
        proof {
            assert(name.spec_bytes() == encode_utf8(name@));
        }
        str_chars(name)
    }
}

/// The text of the first span of a source's line.
fn row_first_text(row: &SourceRow, number: usize, width: usize) -> (r: Vec<char>)
    ensures
        r@ == "  "@ + (if number < 9 { decimal((number + 1) as nat) } else { " "@ }) + (if row.active {
            ">"@
        } else {
            " "@
        }) + " "@ + row_name(row.name@, sat_sub(width as int, 8)),
{
    let max_len: usize = if width >= 8 { width - 8 } else { 0 };
    let shown = row_name_chars(row.name.as_str(), max_len);
    let mut first = str_chars("  ");
    if number < 9 {
        push_decimal(&mut first, (number + 1) as u128);
    } else {
        push_str(&mut first, " ");
    }
    if row.active {
        push_str(&mut first, ">");
    } else {
        push_str(&mut first, " ");
    }
    push_str(&mut first, " ");
    let ghost f0 = first@;
    let mut k: usize = 0;
    while k < shown.len()
        invariant
            k <= shown@.len(),
            first@ == f0 + shown@.take(k as int),
        decreases shown@.len() - k,
    {
        first.push(shown[k]);
        k = k + 1;
        assert(first@ =~= f0 + shown@.take(k as int));
    }
    assert(shown@.take(shown@.len() as int) =~= shown@);
    first
}

fn row_spans_of(row: &SourceRow, number: usize, selected: bool, width: usize) -> (r: Vec<(String, PanelStyle)>)
    ensures
        panel_view(r@) == row_spans(*row, number as int, selected, width as int),
{
    let first = row_first_text(row, number, width);
    let style = row_style_of(row, selected);
    let mut spans: Vec<(String, PanelStyle)> = Vec::new();
    spans.push((string_from_chars(first.as_slice()), style));
    let ghost s0 = panel_view(spans@);
    if row.loading {
        spans.push(panel_span(" ⟳", PanelStyle { fg: Some(Color::Magenta), bg: None, bold: false }));
    }
    let ghost s1 = panel_view(spans@);
    if row.filtered {
        spans.push(panel_span(" *", PanelStyle { fg: Some(Color::Cyan), bg: None, bold: false }));
    }
    let ghost s2 = panel_view(spans@);
    if row.follow {
        spans.push(panel_span(" F", PanelStyle { fg: Some(Color::Green), bg: None, bold: false }));
    }
    let ghost s3 = panel_view(spans@);
    match row.status {
        Some(SourceStatus::Active) => spans.push(panel_span(" ●", PanelStyle { fg: Some(Color::Green), bg: None, bold: false })),
        Some(SourceStatus::Ended) => spans.push(panel_span(" ○", PanelStyle { fg: Some(Color::DarkGray), bg: None, bold: false })),
        None => {},
    }
    proof {
        let f = seq![("  "@ + (if number < 9 { decimal((number + 1) as nat) } else { " "@ }) + (if row.active {
            ">"@
        } else {
            " "@
        }) + " "@ + row_name(row.name@, sat_sub(width as int, 8)), row_style(*row, selected))];
        assert(s0 =~= f);
        let a = if row.loading { f.push((" ⟳"@, panel_fg(Color::Magenta))) } else { f };
        assert(s1 =~= a);
        let b = if row.filtered { a.push((" *"@, panel_fg(Color::Cyan))) } else { a };
        assert(s2 =~= b);
        let c = if row.follow { b.push((" F"@, panel_fg(Color::Green))) } else { b };
        assert(s3 =~= c);
    }
    assert(panel_view(spans@) =~= row_spans(*row, number as int, selected, width as int));
    spans
}

/// Display width of the spans, added up and held at `usize::MAX`.
fn spans_width_of(spans: &Vec<(String, PanelStyle)>) -> (r: usize)
    ensures
        r == spans_width(panel_view(spans@)),
{
    let mut used: usize = 0;
    let mut j: usize = 0;
    while j < spans.len()
        invariant
            j <= spans@.len(),
            used == spans_width(panel_view(spans@).take(j as int)),
        decreases spans@.len() - j,
    {
        let w = crate::text_wrap::str_width(spans[j].0.as_str());
        proof {
            assert(panel_view(spans@).take(j + 1).drop_last() =~= panel_view(spans@).take(j as int));
        }
        used = if w > usize::MAX - used { usize::MAX } else { used + w };
        j = j + 1;
    }
    assert(panel_view(spans@).take(spans@.len() as int) =~= panel_view(spans@));
    used
}

/// The line of a source in the side panel.
fn source_row_line(row: &SourceRow, number: usize, selected: bool, width: usize) -> (r: Vec<(String, PanelStyle)>)
    ensures
        panel_view(r@) == row_line(*row, number as int, selected, width as int),
{
    let mut spans = row_spans_of(row, number, selected, width);
    let used = spans_width_of(&spans);
    let inner: usize = if width >= 2 { width - 2 } else { 0 };
    let remaining: usize = if inner > used { inner - used } else { 0 };
    if remaining > 0 {
        let cs = str_chars(row.meta.as_str());
        let n: usize = if remaining < cs.len() { remaining } else { cs.len() };
        let mut m: Vec<char> = Vec::new();
        let mut i: usize = 0;
        while i < n
            invariant
                i <= n <= cs@.len(),
                cs@ == row.meta@,
                m@ == cs@.take(i as int),
            decreases n - i,
        {
            m.push(cs[i]);
            i = i + 1;
            assert(m@ =~= cs@.take(i as int));
        }
        let ghost before = panel_view(spans@);
        spans.push((string_from_chars(m.as_slice()), PanelStyle { fg: Some(Color::DarkGray), bg: None, bold: false }));
        assert(panel_view(spans@) =~= before.push((row.meta@.take(n as int), panel_fg(Color::DarkGray))));
    }
    spans
}

/// The lines of one category in the side panel, given how many sources
/// come before it, whether it is expanded and what is selected (only when
/// the panel has the focus): the heading, and the sources' lines when
/// expanded.
pub open spec fn category_lines(
    cat: SourceType,
    rows: Seq<SourceRow>,
    before: int,
    expanded: bool,
    selection: Option<TreeSelection>,
    focused: bool,
    width: int,
) -> Seq<Seq<(Seq<char>, PanelStyle)>> {
    let heading = seq![(
        (if expanded { "▼"@ } else { "▶"@ }) + " "@ + source_type_name(cat),
        heading_style(focused && selection == Some(TreeSelection::Category(cat))),
    )];
    seq![heading] + if expanded {
        Seq::new(
            rows.len(),
            |i: int| row_line(rows[i], before + i, focused && selection == Some(TreeSelection::Item(cat, i as usize)), width),
        )
    } else {
        seq![]
    }
}

/// Sources in the first `k` categories.
pub open spec fn sources_before(cats: Seq<(SourceType, Vec<SourceRow>)>, k: int) -> int
    decreases k,
{
    if k <= 0 {
        0
    } else {
        sources_before(cats, k - 1) + cats[k - 1].1@.len()
    }
}

/// The side panel's lines for the first `k` categories (empty categories
/// are left out) and the row of the selected source among them.
pub open spec fn source_panel_of(
    cats: Seq<(SourceType, Vec<SourceRow>)>,
    k: int,
    expanded: Seq<bool>,
    selection: Option<TreeSelection>,
    focused: bool,
    width: int,
) -> (Seq<Seq<(Seq<char>, PanelStyle)>>, Option<int>)
    decreases k,
{
    if k <= 0 {
        (seq![], None)
    } else {
        let prev = source_panel_of(cats, k - 1, expanded, selection, focused, width);
        let (cat, rows) = cats[k - 1];
        if rows@.len() == 0 {
            prev
        } else {
            let ex = expanded[source_type_index(cat)];
            let lines = category_lines(cat, rows@, sources_before(cats, k - 1), ex, selection, focused, width);
            let sel = match selection {
                Some(TreeSelection::Item(c, i)) => if focused && ex && c == cat && i < rows@.len() {
                    Some(prev.0.len() + 1 + i)
                } else {
                    prev.1
                },
                _ => prev.1,
            };
            (prev.0 + lines, sel)
        }
    }
}

/// The lines of the side panel as sequences of (text, style) spans.
pub open spec fn lines_view(v: Seq<Vec<(String, PanelStyle)>>) -> Seq<Seq<(Seq<char>, PanelStyle)>> {
    v.map_values(|l: Vec<(String, PanelStyle)>| panel_view(l@))
}

pub open spec fn opt_index(o: Option<usize>) -> Option<int> {
    match o {
        Some(i) => Some(i as int),
        None => None,
    }
}

pub open spec fn sat_usize(n: int) -> int {
    if n > usize::MAX { usize::MAX as int } else { n }
}

/// Past the ninth source a line shows no number, so which number it has
/// makes no difference.
proof fn lemma_row_line_unnumbered(row: SourceRow, a: int, b: int, selected: bool, width: int)
    requires
        a >= 9,
        b >= 9,
    ensures
        row_line(row, a, selected, width) == row_line(row, b, selected, width),
{
    assert(row_spans(row, a, selected, width) == row_spans(row, b, selected, width));
}

fn heading_line(cat: SourceType, expanded: bool, selected: bool) -> (r: Vec<(String, PanelStyle)>)
    ensures
        panel_view(r@) == seq![(
            (if expanded { "▼"@ } else { "▶"@ }) + " "@ + source_type_name(cat),
            heading_style(selected),
        )],
{
    let mut t = if expanded { str_chars("▼") } else { str_chars("▶") };
    push_str(&mut t, " ");
    push_str(&mut t, source_type_heading(cat));
    let style = PanelStyle { fg: Some(Color::Cyan), bg: if selected { Some(Color::DarkGray) } else { None }, bold: true };
    let mut v: Vec<(String, PanelStyle)> = Vec::new();
    v.push((string_from_chars(t.as_slice()), style));
    assert(panel_view(v@) =~= seq![(
        (if expanded { "▼"@ } else { "▶"@ }) + " "@ + source_type_name(cat),
        heading_style(selected),
    )]);
    v
}

/// The side panel's source tree: for each category that has sources, in the
/// order given, a heading (arrow, name) and, when the category is expanded,
/// a line per source, numbered 1 to 9 across all categories in order
/// (collapsed ones count too). Also the row of the selected source, when the
/// panel has the focus and the selected source's category is expanded.
pub fn source_panel_rows(
    categories: &Vec<(SourceType, Vec<SourceRow>)>,
    expanded: &[bool; 5],
    selection: Option<TreeSelection>,
    focused: bool,
    width: usize,
) -> (r: (Vec<Vec<(String, PanelStyle)>>, Option<usize>))
    ensures
        lines_view(r.0@) == source_panel_of(
            categories@,
            categories@.len() as int,
            expanded@,
            selection,
            focused,
            width as int,
        ).0,
        opt_index(r.1) == source_panel_of(
            categories@,
            categories@.len() as int,
            expanded@,
            selection,
            focused,
            width as int,
        ).1,
{
    let mut lines: Vec<Vec<(String, PanelStyle)>> = Vec::new();
    let mut sel: Option<usize> = None;
    let mut before: usize = 0;
    let mut k: usize = 0;
    assert(lines_view(lines@) =~= seq![]);
    while k < categories.len()
        invariant
            k <= categories@.len(),
            expanded@.len() == 5,
            lines_view(lines@) == source_panel_of(categories@, k as int, expanded@, selection, focused, width as int).0,
            opt_index(sel) == source_panel_of(categories@, k as int, expanded@, selection, focused, width as int).1,
            before == sat_usize(sources_before(categories@, k as int)),
        decreases categories@.len() - k,
    {
        let cat = categories[k].0;
        let rows = &categories[k].1;
        let ghost bk = sources_before(categories@, k as int);
        proof {
            assert(sources_before(categories@, k + 1) == bk + rows@.len());
        }
        if rows.len() > 0 {
            let ex = expanded[source_type_number(cat)];
            let cat_sel = focused && match selection {
                Some(TreeSelection::Category(c)) => c == cat,
                _ => false,
            };
            let ghost prev = lines_view(lines@);
            let ghost prev_sel = opt_index(sel);
            let ghost heading = seq![(
                (if ex { "▼"@ } else { "▶"@ }) + " "@ + source_type_name(cat),
                heading_style(focused && selection == Some(TreeSelection::Category(cat))),
            )];
            lines.push(heading_line(cat, ex, cat_sel));
            assert(lines_view(lines@) =~= prev.push(heading));
            if ex {
                let mut i: usize = 0;
                while i < rows.len()
                    invariant
                        i <= rows@.len(),
                        rows@ == categories@[k as int].1@,
                        before == sat_usize(bk),
                        bk >= 0,
                        lines_view(lines@) == prev + seq![heading] + Seq::new(
                            i as nat,
                            |t: int| row_line(
                                rows@[t],
                                bk + t,
                                focused && selection == Some(TreeSelection::Item(cat, t as usize)),
                                width as int,
                            ),
                        ),
                        opt_index(sel) == match selection {
                            Some(TreeSelection::Item(c, j)) => if focused && c == cat && j < i {
                                Some(prev.len() + 1 + j)
                            } else {
                                prev_sel
                            },
                            _ => prev_sel,
                        },
                    decreases rows@.len() - i,
                {
                    let num: usize = if before > usize::MAX - i { usize::MAX } else { before + i };
                    let is_sel = focused && match selection {
                        Some(TreeSelection::Item(c, j)) => c == cat && j == i,
                        _ => false,
                    };
                    proof {
                        if bk + i >= 9 && num >= 9 {
                            lemma_row_line_unnumbered(
                                rows@[i as int],
                                bk + i,
                                num as int,
                                is_sel,
                                width as int,
                            );
                        }
                        assert(is_sel == (focused && selection == Some(TreeSelection::Item(cat, i))));
                    }
                    let ghost old_lines = lines_view(lines@);
                    if is_sel {
                        sel = Some(lines.len());
                    }
                    let line = source_row_line(&rows[i], num, is_sel, width);
                    proof {
                        assert(num == bk + i || (bk + i >= 9 && num >= 9));
                        assert(panel_view(line@) == row_line(
                            rows@[i as int],
                            bk + i,
                            focused && selection == Some(TreeSelection::Item(cat, i)),
                            width as int,
                        ));
                    }
                    lines.push(line);
                    assert(lines_view(lines@) =~= old_lines.push(panel_view(line@)));
                    i = i + 1;
                    assert(lines_view(lines@) =~= prev + seq![heading] + Seq::new(
                        i as nat,
                        |t: int| row_line(
                            rows@[t],
                            bk + t,
                            focused && selection == Some(TreeSelection::Item(cat, t as usize)),
                            width as int,
                        ),
                    ));
                }
            }
            proof {
                let lines_k = category_lines(cat, rows@, bk, ex, selection, focused, width as int);
                assert(lines_view(lines@) =~= prev + lines_k);
            }
        }
        before = if before > usize::MAX - rows.len() { usize::MAX } else { before + rows.len() };
        k = k + 1;
    }
    (lines, sel)
}

/// The background that marks a line's severity in the log view: warn,
/// error and fatal lines have one, others none.
pub open spec fn severity_background(severity: Severity, ui: UiColors) -> Option<Color> {
    match severity {
        Severity::Warn => Some(ui.severity_warn_bg),
        Severity::Error => Some(ui.severity_error_bg),
        Severity::Fatal => Some(ui.severity_fatal_bg),
        _ => None,
    }
}

/// The severity background of a line.
pub fn severity_bg(severity: Severity, ui: &UiColors) -> (r: Option<Color>)
    ensures
        r == severity_background(severity, *ui),
{
    match severity {
        Severity::Warn => Some(ui.severity_warn_bg),
        Severity::Error => Some(ui.severity_error_bg),
        Severity::Fatal => Some(ui.severity_fatal_bg),
        _ => None,
    }
}

/// A span's style on the selected line: a gray, dark gray or black
/// foreground becomes the selection foreground, the background becomes the
/// selection background, and the text is bold.
pub open spec fn selected_style(style: PanelStyle, ui: UiColors) -> PanelStyle {
    PanelStyle {
        fg: match style.fg {
            Some(Color::Gray) | Some(Color::DarkGray) | Some(Color::Black) => Some(ui.selection_fg),
            _ => style.fg,
        },
        bg: Some(ui.selection_bg),
        bold: true,
    }
}

/// Number of prefix spans in a row of a log line: the source tag (in a
/// combined view), the line number and the separator on the first row; the
/// indent on the others.
pub open spec fn prefix_span_count(row: int, has_tag: bool) -> int {
    if row == 0 {
        if has_tag { 3 } else { 2 }
    } else {
        1
    }
}

/// The style span `k` of row `row` of a log line gets: the selection style
/// on the selected line; on an expanded line the expanded background on the
/// content, the separator and the indent, and on the line number unless a
/// severity background is there; otherwise the severity background on the
/// line number of the first row.
pub open spec fn row_span_style(
    style: PanelStyle,
    k: int,
    row: int,
    has_tag: bool,
    sev_bg: Option<Color>,
    selected: bool,
    expanded: bool,
    ui: UiColors,
) -> PanelStyle {
    let num_idx = if has_tag { 1int } else { 0 };
    if selected {
        selected_style(style, ui)
    } else if expanded {
        if k >= prefix_span_count(row, has_tag) || (row == 0 && k == num_idx + 1) || (row == 0 && k == num_idx
            && sev_bg is None) || (row != 0 && k == 0) {
            PanelStyle { bg: Some(ui.expanded_bg), ..style }
        } else {
            style
        }
    } else if row == 0 && k == num_idx && sev_bg is Some {
        PanelStyle { bg: sev_bg, ..style }
    } else {
        style
    }
}

/// The prefix spans of row `row` of log line `line_number` (counted from 0):
/// on the first row the source tag in its color (in a combined view), the
/// line number from 1 right-aligned to 6 columns with ` |` (on the severity
/// background), and a space; on the other rows an indent as wide as the
/// prefix.
pub open spec fn row_prefix(
    line_number: int,
    tag: Option<(Seq<char>, Color)>,
    sev_bg: Option<Color>,
    row: int,
    prefix_width: int,
) -> Seq<(Seq<char>, PanelStyle)> {
    let plain = PanelStyle { fg: None, bg: None, bold: false };
    if row == 0 {
        let num = seq![
            (pad_left(decimal((line_number + 1) as nat), 6) + " |"@, PanelStyle { fg: None, bg: sev_bg, bold: false }),
            (" "@, plain),
        ];
        match tag {
            Some((name, color)) => seq![(source_tag(name, 8), panel_fg(color))] + num,
            None => num,
        }
    } else {
        seq![(repeated(' ', prefix_width), plain)]
    }
}

/// The prefix spans of a row of a log line.
pub fn log_row_prefix(
    line_number: usize,
    tag: Option<(&str, Color)>,
    severity: Severity,
    row: usize,
    prefix_width: usize,
    ui: &UiColors,
) -> (r: Vec<(String, PanelStyle)>)
    requires
        line_number < usize::MAX,
    ensures
        panel_view(r@) == row_prefix(
            line_number as int,
            match tag {
                Some((name, color)) => Some((name@, color)),
                None => None,
            },
            severity_background(severity, *ui),
            row as int,
            prefix_width as int,
        ),
{
    let plain = PanelStyle { fg: None, bg: None, bold: false };
    let mut v: Vec<(String, PanelStyle)> = Vec::new();
    if row == 0 {
        if let Some((name, color)) = tag {
            v.push((format_source_tag(name, 8), PanelStyle { fg: Some(color), bg: None, bold: false }));
        }
        let mut digits: Vec<char> = Vec::new();
        push_decimal(&mut digits, (line_number + 1) as u128);
        let mut num: Vec<char> = Vec::new();
        let k: usize = if digits.len() < 6 { 6 - digits.len() } else { 0 };
        push_repeat(&mut num, ' ', k);
        let ghost pad = num@;
        let mut i: usize = 0;
        while i < digits.len()
            invariant
                i <= digits@.len(),
                num@ == pad + digits@.take(i as int),
            decreases digits@.len() - i,
        {
            num.push(digits[i]);
            i = i + 1;
            assert(num@ =~= pad + digits@.take(i as int));
        }
        assert(digits@.take(digits@.len() as int) =~= digits@);
        push_str(&mut num, " |");
        proof {
            assert(repeated(' ', k as int) =~= repeated(' ', 6 - digits@.len()));
        }
        v.push((string_from_chars(num.as_slice()), PanelStyle { fg: None, bg: severity_bg(severity, ui), bold: false }));
        v.push(panel_span(" ", plain));
    } else {
        let mut sp: Vec<char> = Vec::new();
        push_repeat(&mut sp, ' ', prefix_width);
        v.push((string_from_chars(sp.as_slice()), plain));
    }
    proof {
        let t = match tag {
            Some((name, color)) => Some((name@, color)),
            None => None,
        };
        assert(panel_view(v@) =~= row_prefix(line_number as int, t, severity_background(severity, *ui), row as int, prefix_width as int));
    }
    v
}

/// The spans of row `row` of a log line (prefix spans first), restyled for
/// the line's selection, expansion and severity.
pub fn style_log_row(
    spans: &Vec<(String, PanelStyle)>,
    row: usize,
    has_tag: bool,
    severity: Severity,
    selected: bool,
    expanded: bool,
    ui: &UiColors,
) -> (r: Vec<(String, PanelStyle)>)
    ensures
        r@.len() == spans@.len(),
        forall|k: int|
            0 <= k < spans@.len() ==> (#[trigger] r@[k]).0 == spans@[k].0 && r@[k].1 == row_span_style(
                spans@[k].1,
                k,
                row as int,
                has_tag,
                severity_background(severity, *ui),
                selected,
                expanded,
                *ui,
            ),
{
    let sev_bg = severity_bg(severity, ui);
    let num_idx: usize = if has_tag { 1 } else { 0 };
    let prefix_count: usize = if row == 0 {
        if has_tag { 3 } else { 2 }
    } else {
        1
    };
    let mut out: Vec<(String, PanelStyle)> = Vec::new();
    let mut k: usize = 0;
    while k < spans.len()
        invariant
            k <= spans@.len(),
            out@.len() == k,
            sev_bg == severity_background(severity, *ui),
            num_idx == (if has_tag { 1int } else { 0 }),
            prefix_count == prefix_span_count(row as int, has_tag),
            forall|j: int|
                0 <= j < k ==> (#[trigger] out@[j]).0 == spans@[j].0 && out@[j].1 == row_span_style(
                    spans@[j].1,
                    j,
                    row as int,
                    has_tag,
                    sev_bg,
                    selected,
                    expanded,
                    *ui,
                ),
        decreases spans@.len() - k,
    {
        let style = spans[k].1;
        let new_style = if selected {
            let fg = match style.fg {
                Some(Color::Gray) | Some(Color::DarkGray) | Some(Color::Black) => Some(ui.selection_fg),
                _ => style.fg,
            };
            PanelStyle { fg, bg: Some(ui.selection_bg), bold: true }
        } else if expanded {
            if k >= prefix_count || (row == 0 && k == num_idx + 1) || (row == 0 && k == num_idx && sev_bg.is_none())
                || (row != 0 && k == 0) {
                PanelStyle { fg: style.fg, bg: Some(ui.expanded_bg), bold: style.bold }
            } else {
                style
            }
        } else if row == 0 && k == num_idx && sev_bg.is_some() {
            PanelStyle { fg: style.fg, bg: sev_bg, bold: style.bold }
        } else {
            style
        };
        out.push((spans[k].0.clone(), new_style));
        k = k + 1;
    }
    out
}

} // verus!
