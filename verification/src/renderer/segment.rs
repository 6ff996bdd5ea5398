//! Styled text segments: the output of preset rendering, and the style rules
//! for severities and HTTP status codes.
use crate::ansi::{ansi_stripped, csi_params, esc, escape_free, lemma_strip_csi, lemma_strip_plain, strip_from};
use crate::text::{decimal, push_decimal, push_str, str_chars, str_eq, string_from_chars};
use crate::theme::{palette_field, Color, Palette};
use vstd::prelude::*;
use vstd::string::StringExecFns;

verus! {

/// The IR unit — text content + style metadata.
#[derive(Debug)]
pub struct StyledSegment {
    pub text: String,
    pub style: SegmentStyle,
}

/// Style for a rendered segment.
#[derive(Debug, Clone, PartialEq, Eq)]
pub enum SegmentStyle {
    Default,
    Dim,
    Bold,
    Italic,
    Fg(SegmentColor),
    Compound { dim: bool, bold: bool, italic: bool, fg: Option<SegmentColor> },
}

/// Named colors for segment styling.
#[derive(Debug, Clone, PartialEq, Eq)]
pub enum SegmentColor {
    Red,
    Green,
    Yellow,
    Blue,
    Magenta,
    Cyan,
    White,
    Gray,
    Palette(String),
}

/// ASCII lower-casing of one character (`char::to_ascii_lowercase`).
pub open spec fn ascii_lower_char(c: char) -> char {
    if 'A' <= c && c <= 'Z' {
        ((c as u32) + 32) as char
    } else {
        c
    }
}

/// ASCII lower-casing of a text (`str::to_ascii_lowercase`).
pub open spec fn ascii_lower(s: Seq<char>) -> Seq<char> {
    s.map_values(|c: char| ascii_lower_char(c))
}

/// The style of a severity name, compared without regard to ASCII case.
pub open spec fn severity_style(value: Seq<char>) -> SegmentStyle {
    let l = ascii_lower(value);
    if l == "error"@ || l == "err"@ || l == "fatal"@ {
        SegmentStyle::Fg(SegmentColor::Red)
    } else if l == "warn"@ || l == "warning"@ {
        SegmentStyle::Fg(SegmentColor::Yellow)
    } else if l == "info"@ {
        SegmentStyle::Fg(SegmentColor::Green)
    } else if l == "debug"@ {
        SegmentStyle::Fg(SegmentColor::Cyan)
    } else if l == "trace"@ {
        SegmentStyle::Fg(SegmentColor::Gray)
    } else {
        SegmentStyle::Default
    }
}

/// The style of an HTTP status code, by its first character.
pub open spec fn status_code_style(value: Seq<char>) -> SegmentStyle {
    if value.len() == 0 {
        SegmentStyle::Default
    } else if value[0] == '2' {
        SegmentStyle::Fg(SegmentColor::Green)
    } else if value[0] == '3' {
        SegmentStyle::Fg(SegmentColor::Cyan)
    } else if value[0] == '4' {
        SegmentStyle::Fg(SegmentColor::Yellow)
    } else if value[0] == '5' {
        SegmentStyle::Fg(SegmentColor::Red)
    } else {
        SegmentStyle::Default
    }
}

/// `s` in ASCII lower case.
pub fn to_ascii_lowercase(s: &str) -> (r: String)
    ensures
        r@ == ascii_lower(s@),
{
    let cs = str_chars(s);
    let mut out: Vec<char> = Vec::new();
    let mut i: usize = 0;
    while i < cs.len()
        invariant
            cs@ == s@,
            i <= cs@.len(),
            out@ == ascii_lower(cs@.take(i as int)),
        decreases cs@.len() - i,
    {
        let c = cs[i];
        let l = if 'A' <= c && c <= 'Z' {
            ((c as u32) + 32) as u8 as char
        } else {
            c
        };
        out.push(l);
        i = i + 1;
        assert(ascii_lower(cs@.take(i as int)) =~= ascii_lower(cs@.take(i - 1)).push(l));
    }
    assert(cs@.take(cs@.len() as int) == cs@);
    string_from_chars(out.as_slice())
}

/// Maps severity level strings to appropriate styles. Case-insensitive.
pub fn resolve_severity_style(value: &str) -> (r: SegmentStyle)
    ensures
        r == severity_style(value@),
{
    let lower = to_ascii_lowercase(value);
    let l = lower.as_str();
    if str_eq(l, "error") || str_eq(l, "err") || str_eq(l, "fatal") {
        SegmentStyle::Fg(SegmentColor::Red)
    } else if str_eq(l, "warn") || str_eq(l, "warning") {
        SegmentStyle::Fg(SegmentColor::Yellow)
    } else if str_eq(l, "info") {
        SegmentStyle::Fg(SegmentColor::Green)
    } else if str_eq(l, "debug") {
        SegmentStyle::Fg(SegmentColor::Cyan)
    } else if str_eq(l, "trace") {
        SegmentStyle::Fg(SegmentColor::Gray)
    } else {
        SegmentStyle::Default
    }
}

/// Maps HTTP status code strings to colored styles.
pub fn resolve_status_code_style(value: &str) -> (r: SegmentStyle)
    ensures
        r == status_code_style(value@),
{
    let cs = str_chars(value);
    if cs.len() == 0 {
        return SegmentStyle::Default;
    }
    let c = cs[0];
    if c == '2' {
        SegmentStyle::Fg(SegmentColor::Green)
    } else if c == '3' {
        SegmentStyle::Fg(SegmentColor::Cyan)
    } else if c == '4' {
        SegmentStyle::Fg(SegmentColor::Yellow)
    } else if c == '5' {
        SegmentStyle::Fg(SegmentColor::Red)
    } else {
        SegmentStyle::Default
    }
}

/// The texts of the segments, joined.
pub open spec fn plain_text(segments: Seq<StyledSegment>) -> Seq<char>
    decreases segments.len(),
{
    if segments.len() == 0 {
        seq![]
    } else {
        plain_text(segments.drop_last()) + segments.last().text@
    }
}

/// Concatenate segment text values into a plain text string.
pub fn segments_to_plain_text(segments: &[StyledSegment]) -> (r: String)
    ensures
        r@ == plain_text(segments@),
{
    let mut out = String::new();
    let mut i: usize = 0;
    while i < segments.len()
        invariant
            i <= segments@.len(),
            out@ == plain_text(segments@.take(i as int)),
        decreases segments@.len() - i,
    {
        out.append(segments[i].text.as_str());
        i = i + 1;
        assert(segments@.take(i as int).drop_last() == segments@.take(i - 1));
    }
    assert(segments@.take(segments@.len() as int) == segments@);
    out
}

/// Terminal style of a segment in the log view: text attributes and an
/// optional foreground color.
#[derive(Debug, Clone, Copy, PartialEq, Eq, Structural)]
pub struct TerminalStyle {
    pub dim: bool,
    pub bold: bool,
    pub italic: bool,
    pub fg: Option<Color>,
}

/// The palette, when there is one, as a value.
pub open spec fn palette_of(palette: Option<&Palette>) -> Option<Palette> {
    match palette {
        Some(p) => Some(*p),
        None => None,
    }
}

/// A palette color by field name, when there is a palette.
pub open spec fn palette_lookup(palette: Option<Palette>, name: Seq<char>) -> Option<Color> {
    match palette {
        Some(p) => palette_field(p, name),
        None => None,
    }
}

/// A color from the palette field `name`, or `fallback` without one.
pub open spec fn palette_or(palette: Option<Palette>, name: Seq<char>, fallback: Color) -> Color {
    match palette_lookup(palette, name) {
        Some(c) => c,
        None => fallback,
    }
}

/// The terminal color of a segment color: the palette's color of that name
/// (`bright_black` for gray), or the plain terminal color without a palette;
/// a palette color that the palette lacks is the terminal default.
pub open spec fn segment_color(color: SegmentColor, palette: Option<Palette>) -> Color {
    match color {
        SegmentColor::Red => palette_or(palette, "red"@, Color::Red),
        SegmentColor::Green => palette_or(palette, "green"@, Color::Green),
        SegmentColor::Yellow => palette_or(palette, "yellow"@, Color::Yellow),
        SegmentColor::Blue => palette_or(palette, "blue"@, Color::Blue),
        SegmentColor::Magenta => palette_or(palette, "magenta"@, Color::Magenta),
        SegmentColor::Cyan => palette_or(palette, "cyan"@, Color::Cyan),
        SegmentColor::White => palette_or(palette, "white"@, Color::White),
        SegmentColor::Gray => palette_or(palette, "bright_black"@, Color::Gray),
        SegmentColor::Palette(name) => palette_or(palette, name@, Color::Reset),
    }
}

/// The terminal style of a segment style.
pub open spec fn terminal_style(style: SegmentStyle, palette: Option<Palette>) -> TerminalStyle {
    match style {
        SegmentStyle::Default => TerminalStyle { dim: false, bold: false, italic: false, fg: None },
        SegmentStyle::Dim => TerminalStyle { dim: true, bold: false, italic: false, fg: None },
        SegmentStyle::Bold => TerminalStyle { dim: false, bold: true, italic: false, fg: None },
        SegmentStyle::Italic => TerminalStyle { dim: false, bold: false, italic: true, fg: None },
        SegmentStyle::Fg(c) => TerminalStyle {
            dim: false,
            bold: false,
            italic: false,
            fg: Some(segment_color(c, palette)),
        },
        SegmentStyle::Compound { dim, bold, italic, fg } => TerminalStyle {
            dim,
            bold,
            italic,
            fg: match fg {
                Some(c) => Some(segment_color(c, palette)),
                None => None,
            },
        },
    }
}

/// Resolve a segment color through the palette.
pub fn segment_color_to_ratatui(color: &SegmentColor, palette: Option<&Palette>) -> (r: Color)
    ensures
        r == segment_color(*color, palette_of(palette)),
{
    let (name, fallback) = match color {
        SegmentColor::Red => ("red", Color::Red),
        SegmentColor::Green => ("green", Color::Green),
        SegmentColor::Yellow => ("yellow", Color::Yellow),
        SegmentColor::Blue => ("blue", Color::Blue),
        SegmentColor::Magenta => ("magenta", Color::Magenta),
        SegmentColor::Cyan => ("cyan", Color::Cyan),
        SegmentColor::White => ("white", Color::White),
        SegmentColor::Gray => ("bright_black", Color::Gray),
        SegmentColor::Palette(name) => (name.as_str(), Color::Reset),
    };
    match palette {
        Some(p) => match p.get_color(name) {
            Some(c) => c,
            None => fallback,
        },
        None => fallback,
    }
}

/// Convert a segment style to the terminal style of the log view. Named
/// colors are resolved through the palette when one is given.
pub fn to_ratatui_style(style: &SegmentStyle, palette: Option<&Palette>) -> (r: TerminalStyle)
    ensures
        r == terminal_style(*style, palette_of(palette)),
{
    match style {
        SegmentStyle::Default => TerminalStyle { dim: false, bold: false, italic: false, fg: None },
        SegmentStyle::Dim => TerminalStyle { dim: true, bold: false, italic: false, fg: None },
        SegmentStyle::Bold => TerminalStyle { dim: false, bold: true, italic: false, fg: None },
        SegmentStyle::Italic => TerminalStyle { dim: false, bold: false, italic: true, fg: None },
        SegmentStyle::Fg(color) => TerminalStyle {
            dim: false,
            bold: false,
            italic: false,
            fg: Some(segment_color_to_ratatui(color, palette)),
        },
        SegmentStyle::Compound { dim, bold, italic, fg } => {
            let fg = match fg {
                Some(c) => Some(segment_color_to_ratatui(c, palette)),
                None => None,
            };
            TerminalStyle { dim: *dim, bold: *bold, italic: *italic, fg }
        },
    }
}

/// The SGR parameter of a terminal color (`38;2;r;g;b` for RGB colors);
/// empty for the colors without one here.
pub open spec fn color_ansi(c: Color) -> Seq<char> {
    match c {
        Color::Black => "30"@,
        Color::Red => "31"@,
        Color::Green => "32"@,
        Color::Yellow => "33"@,
        Color::Blue => "34"@,
        Color::Magenta => "35"@,
        Color::Cyan => "36"@,
        Color::White => "37"@,
        Color::Gray => "90"@,
        Color::DarkGray => "90"@,
        Color::LightRed => "91"@,
        Color::LightGreen => "92"@,
        Color::LightYellow => "93"@,
        Color::LightBlue => "94"@,
        Color::LightMagenta => "95"@,
        Color::LightCyan => "96"@,
        Color::Rgb(r, g, b) => "38;2;"@ + decimal(r as nat) + ";"@ + decimal(g as nat) + ";"@ + decimal(
            b as nat,
        ),
        _ => Seq::empty(),
    }
}

/// The SGR parameter of a segment color: fixed codes for the named colors,
/// the palette color's code for a palette color (empty when the palette
/// lacks it or there is no palette).
pub open spec fn segment_color_ansi(color: SegmentColor, palette: Option<Palette>) -> Seq<char> {
    match color {
        SegmentColor::Red => "31"@,
        SegmentColor::Green => "32"@,
        SegmentColor::Yellow => "33"@,
        SegmentColor::Blue => "34"@,
        SegmentColor::Magenta => "35"@,
        SegmentColor::Cyan => "36"@,
        SegmentColor::White => "37"@,
        SegmentColor::Gray => "90"@,
        SegmentColor::Palette(name) => match palette_lookup(palette, name@) {
            Some(c) => color_ansi(c),
            None => Seq::empty(),
        },
    }
}

/// Codes joined with `;`.
pub open spec fn join_codes(codes: Seq<Seq<char>>) -> Seq<char>
    decreases codes.len(),
{
    if codes.len() == 0 {
        Seq::empty()
    } else if codes.len() == 1 {
        codes[0]
    } else {
        join_codes(codes.drop_last()) + ";"@ + codes.last()
    }
}

/// The codes of a compound style, in order: dim, bold, italic, color.
pub open spec fn compound_codes(
    dim: bool,
    bold: bool,
    italic: bool,
    fg: Option<SegmentColor>,
    palette: Option<Palette>,
) -> Seq<Seq<char>> {
    let a = if dim {
        seq!["2"@]
    } else {
        Seq::empty()
    };
    let b = if bold {
        a.push("1"@)
    } else {
        a
    };
    let c = if italic {
        b.push("3"@)
    } else {
        b
    };
    match fg {
        Some(color) => c.push(segment_color_ansi(color, palette)),
        None => c,
    }
}

/// The SGR parameters of a segment style.
pub open spec fn style_ansi(style: SegmentStyle, palette: Option<Palette>) -> Seq<char> {
    match style {
        SegmentStyle::Default => Seq::empty(),
        SegmentStyle::Dim => "2"@,
        SegmentStyle::Bold => "1"@,
        SegmentStyle::Italic => "3"@,
        SegmentStyle::Fg(color) => segment_color_ansi(color, palette),
        SegmentStyle::Compound { dim, bold, italic, fg } => join_codes(
            compound_codes(dim, bold, italic, fg, palette),
        ),
    }
}

/// Segments as terminal text: each styled segment wrapped in its SGR
/// sequence and a reset, unstyled ones as they are.
pub open spec fn ansi_text(segments: Seq<StyledSegment>, palette: Option<Palette>) -> Seq<char>
    decreases segments.len(),
{
    if segments.len() == 0 {
        seq![]
    } else {
        ansi_text(segments.drop_last(), palette) + segment_ansi(segments.last(), palette)
    }
}

/// One segment as terminal text: its text, wrapped in its SGR sequence and a
/// reset unless the style is the default.
pub open spec fn segment_ansi(seg: StyledSegment, palette: Option<Palette>) -> Seq<char> {
    if seg.style is Default {
        seg.text@
    } else {
        "\x1b["@ + style_ansi(seg.style, palette) + "m"@ + seg.text@ + "\x1b[0m"@
    }
}

proof fn lemma_decimal_params(n: nat)
    ensures
        csi_params(decimal(n)),
    decreases n,
{
    if n >= 10 {
        lemma_decimal_params(n / 10);
    }
}

proof fn lemma_color_params(c: Color)
    ensures
        csi_params(color_ansi(c)),
{
    reveal_strlit("30");
    reveal_strlit("31");
    reveal_strlit("32");
    reveal_strlit("33");
    reveal_strlit("34");
    reveal_strlit("35");
    reveal_strlit("36");
    reveal_strlit("37");
    reveal_strlit("90");
    reveal_strlit("91");
    reveal_strlit("92");
    reveal_strlit("93");
    reveal_strlit("94");
    reveal_strlit("95");
    reveal_strlit("96");
    reveal_strlit("38;2;");
    reveal_strlit(";");
    if let Color::Rgb(r, g, b) = c {
        lemma_decimal_params(r as nat);
        lemma_decimal_params(g as nat);
        lemma_decimal_params(b as nat);
        let x = "38;2;"@ + decimal(r as nat) + ";"@ + decimal(g as nat) + ";"@ + decimal(b as nat);
        assert(csi_params(x));
    }
}

proof fn lemma_segment_color_params(color: SegmentColor, palette: Option<Palette>)
    ensures
        csi_params(segment_color_ansi(color, palette)),
{
    reveal_strlit("31");
    reveal_strlit("32");
    reveal_strlit("33");
    reveal_strlit("34");
    reveal_strlit("35");
    reveal_strlit("36");
    reveal_strlit("37");
    reveal_strlit("90");
    if let SegmentColor::Palette(name) = color {
        if let Some(c) = palette_lookup(palette, name@) {
            lemma_color_params(c);
        }
    }
}

proof fn lemma_join_params(codes: Seq<Seq<char>>)
    requires
        forall|k: int| 0 <= k < codes.len() ==> csi_params(#[trigger] codes[k]),
    ensures
        csi_params(join_codes(codes)),
    decreases codes.len(),
{
    reveal_strlit(";");
    if codes.len() > 1 {
        lemma_join_params(codes.drop_last());
        assert(csi_params(codes.last()));
    }
}

proof fn lemma_style_params(style: SegmentStyle, palette: Option<Palette>)
    ensures
        csi_params(style_ansi(style, palette)),
{
    reveal_strlit("1");
    reveal_strlit("2");
    reveal_strlit("3");
    match style {
        SegmentStyle::Fg(color) => lemma_segment_color_params(color, palette),
        SegmentStyle::Compound { dim, bold, italic, fg } => {
            let codes = compound_codes(dim, bold, italic, fg, palette);
            if let Some(color) = fg {
                lemma_segment_color_params(color, palette);
            }
            assert forall|k: int| 0 <= k < codes.len() implies csi_params(#[trigger] codes[k]) by {}
            lemma_join_params(codes);
        },
        _ => {},
    }
}

/// A segment's terminal text at position `i` strips to the segment's text.
proof fn lemma_strip_segment(s: Seq<char>, i: int, seg: StyledSegment, palette: Option<Palette>)
    requires
        0 <= i,
        i + segment_ansi(seg, palette).len() <= s.len(),
        s.subrange(i, i + segment_ansi(seg, palette).len()) == segment_ansi(seg, palette),
        escape_free(seg.text@),
    ensures
        strip_from(s, i) == seg.text@ + strip_from(s, i + segment_ansi(seg, palette).len()),
{
    let b = segment_ansi(seg, palette);
    let t = seg.text@;
    if seg.style is Default {
        lemma_strip_plain(s, i, t);
    } else {
        reveal_strlit("\x1b[");
        reveal_strlit("m");
        reveal_strlit("\x1b[0m");
        let c = style_ansi(seg.style, palette);
        lemma_style_params(seg.style, palette);
        assert forall|k: int| 0 <= k < b.len() implies s[i + k] == #[trigger] b[k] by {
            assert(s.subrange(i, i + b.len())[k] == s[i + k]);
        }
        assert(b[0] == esc());
        assert(b[1] == '[');
        assert(s.subrange(i + 2, i + 2 + c.len()) =~= c) by {
            assert forall|k: int| 0 <= k < c.len() implies s.subrange(i + 2, i + 2 + c.len())[k]
                == c[k] by {
                assert(b[2 + k] == c[k]);
            }
        }
        assert(b[2 + c.len() as int] == 'm');
        lemma_strip_csi(s, i, c);
        let j = i + 3 + c.len();
        assert(s.subrange(j, j + t.len()) =~= t) by {
            assert forall|k: int| 0 <= k < t.len() implies s.subrange(j, j + t.len())[k] == t[k] by {
                assert(b[3 + c.len() + k] == t[k]);
            }
        }
        lemma_strip_plain(s, j, t);
        let e = j + t.len();
        assert(b[e - i] == esc());
        assert(b[e - i + 1] == '[');
        assert(b[e - i + 2] == '0');
        assert(b[e - i + 3] == 'm');
        reveal_strlit("0");
        assert(s.subrange(e + 2, e + 3) =~= "0"@);
        lemma_strip_csi(s, e, "0"@);
    }
}

proof fn lemma_strip_ansi_text(segments: Seq<StyledSegment>, palette: Option<Palette>, rest: Seq<char>)
    requires
        forall|k: int| 0 <= k < segments.len() ==> escape_free(#[trigger] segments[k].text@),
    ensures
        strip_from(ansi_text(segments, palette) + rest, 0) == plain_text(segments) + strip_from(
            ansi_text(segments, palette) + rest,
            ansi_text(segments, palette).len() as int,
        ),
    decreases segments.len(),
{
    let s = ansi_text(segments, palette) + rest;
    if segments.len() == 0 {
        assert(s =~= rest);
        assert(plain_text(segments) + strip_from(s, 0) =~= strip_from(s, 0));
    } else {
        let init = segments.drop_last();
        let last = segments.last();
        let a = ansi_text(init, palette);
        let b = segment_ansi(last, palette);
        assert(a + (b + rest) =~= s);
        assert forall|k: int| 0 <= k < init.len() implies escape_free(#[trigger] init[k].text@) by {
            assert(init[k] == segments[k]);
        }
        lemma_strip_ansi_text(init, palette, b + rest);
        assert(escape_free(segments[segments.len() - 1].text@));
        assert(s.subrange(a.len() as int, (a.len() + b.len()) as int) =~= b);
        lemma_strip_segment(s, a.len() as int, last, palette);
        assert(plain_text(segments) =~= plain_text(init) + last.text@);
    }
}

/// Stripping the escape sequences from rendered segments gives back their
/// plain text, when no segment text holds an ESC character itself.
pub proof fn lemma_stripped_ansi_is_plain(segments: Seq<StyledSegment>, palette: Option<Palette>)
    requires
        forall|k: int| 0 <= k < segments.len() ==> escape_free(#[trigger] segments[k].text@),
    ensures
        ansi_stripped(ansi_text(segments, palette)) == plain_text(segments),
{
    lemma_strip_ansi_text(segments, palette, Seq::empty());
    let s = ansi_text(segments, palette);
    assert(s + Seq::<char>::empty() =~= s);
    assert(plain_text(segments) + Seq::<char>::empty() =~= plain_text(segments));
}

/// The SGR parameter of a terminal color.
pub fn ratatui_color_to_ansi(color: Color) -> (r: String)
    ensures
        r@ == color_ansi(color),
{
    let mut out: Vec<char> = Vec::new();
    match color {
        Color::Black => push_str(&mut out, "30"),
        Color::Red => push_str(&mut out, "31"),
        Color::Green => push_str(&mut out, "32"),
        Color::Yellow => push_str(&mut out, "33"),
        Color::Blue => push_str(&mut out, "34"),
        Color::Magenta => push_str(&mut out, "35"),
        Color::Cyan => push_str(&mut out, "36"),
        Color::White => push_str(&mut out, "37"),
        Color::Gray => push_str(&mut out, "90"),
        Color::DarkGray => push_str(&mut out, "90"),
        Color::LightRed => push_str(&mut out, "91"),
        Color::LightGreen => push_str(&mut out, "92"),
        Color::LightYellow => push_str(&mut out, "93"),
        Color::LightBlue => push_str(&mut out, "94"),
        Color::LightMagenta => push_str(&mut out, "95"),
        Color::LightCyan => push_str(&mut out, "96"),
        Color::Rgb(r, g, b) => {
            push_str(&mut out, "38;2;");
            push_decimal(&mut out, r as u128);
            push_str(&mut out, ";");
            push_decimal(&mut out, g as u128);
            push_str(&mut out, ";");
            push_decimal(&mut out, b as u128);
        },
        _ => {},
    }
    string_from_chars(out.as_slice())
}

/// The SGR parameter of a segment color.
pub fn segment_color_to_ansi(color: &SegmentColor, palette: Option<&Palette>) -> (r: String)
    ensures
        r@ == segment_color_ansi(*color, palette_of(palette)),
{
    match color {
        SegmentColor::Red => "31".to_string(),
        SegmentColor::Green => "32".to_string(),
        SegmentColor::Yellow => "33".to_string(),
        SegmentColor::Blue => "34".to_string(),
        SegmentColor::Magenta => "35".to_string(),
        SegmentColor::Cyan => "36".to_string(),
        SegmentColor::White => "37".to_string(),
        SegmentColor::Gray => "90".to_string(),
        SegmentColor::Palette(name) => {
            let found = match palette {
                Some(p) => p.get_color(name.as_str()),
                None => None,
            };
            match found {
                Some(c) => ratatui_color_to_ansi(c),
                None => String::new(),
            }
        },
    }
}

/// Append a code to a `;`-separated list of codes.
fn push_code(out: &mut Vec<char>, count: usize, code: &str, ghost_codes: Ghost<Seq<Seq<char>>>)
    requires
        old(out)@ == join_codes(ghost_codes@),
        count == ghost_codes@.len(),
    ensures
        final(out)@ == join_codes(ghost_codes@.push(code@)),
{
    if count > 0 {
        push_str(out, ";");
    }
    push_str(out, code);
    proof {
        let c = ghost_codes@.push(code@);
        assert(c.drop_last() =~= ghost_codes@);
        if count == 0 {
            assert(join_codes(c) == code@);
        }
    }
}

/// The SGR parameters of a segment style.
pub fn style_to_ansi(style: &SegmentStyle, palette: Option<&Palette>) -> (r: String)
    ensures
        r@ == style_ansi(*style, palette_of(palette)),
{
    match style {
        SegmentStyle::Default => String::new(),
        SegmentStyle::Dim => "2".to_string(),
        SegmentStyle::Bold => "1".to_string(),
        SegmentStyle::Italic => "3".to_string(),
        SegmentStyle::Fg(color) => segment_color_to_ansi(color, palette),
        SegmentStyle::Compound { dim, bold, italic, fg } => {
            let mut out: Vec<char> = Vec::new();
            let mut n: usize = 0;
            let ghost mut codes: Seq<Seq<char>> = Seq::empty();
            if *dim {
                push_code(&mut out, n, "2", Ghost(codes));
                proof {
                    codes = codes.push("2"@);
                }
                n = n + 1;
            }
            if *bold {
                push_code(&mut out, n, "1", Ghost(codes));
                proof {
                    codes = codes.push("1"@);
                }
                n = n + 1;
            }
            if *italic {
                push_code(&mut out, n, "3", Ghost(codes));
                proof {
                    codes = codes.push("3"@);
                }
                n = n + 1;
            }
            if let Some(color) = fg {
                let c = segment_color_to_ansi(color, palette);
                push_code(&mut out, n, c.as_str(), Ghost(codes));
                proof {
                    codes = codes.push(c@);
                }
            }
            assert(codes =~= compound_codes(*dim, *bold, *italic, *fg, palette_of(palette)));
            string_from_chars(out.as_slice())
        },
    }
}

/// Render styled segments as text with ANSI escape sequences.
pub fn segments_to_ansi(segments: &[StyledSegment], palette: Option<&Palette>) -> (r: String)
    ensures
        r@ == ansi_text(segments@, palette_of(palette)),
{
    let mut out: Vec<char> = Vec::new();
    let mut i: usize = 0;
    while i < segments.len()
        invariant
            i <= segments@.len(),
            out@ == ansi_text(segments@.take(i as int), palette_of(palette)),
        decreases segments@.len() - i,
    {
        let seg = &segments[i];
        match seg.style {
            SegmentStyle::Default => push_str(&mut out, seg.text.as_str()),
            _ => {
                push_str(&mut out, "\x1b[");
                let codes = style_to_ansi(&seg.style, palette);
                push_str(&mut out, codes.as_str());
                push_str(&mut out, "m");
                push_str(&mut out, seg.text.as_str());
                push_str(&mut out, "\x1b[0m");
            },
        }
        i = i + 1;
        assert(segments@.take(i as int).drop_last() == segments@.take(i - 1));
    }
    assert(segments@.take(segments@.len() as int) == segments@);
    string_from_chars(out.as_slice())
}

/// Severity names have fixed colors, whatever their ASCII case: `error`,
/// `err` and `fatal` are red; `warn` and `warning` yellow; `info` green;
/// `debug` cyan; `trace` gray; every other value has no style.
pub proof fn lemma_severity_colors(value: Seq<char>)
    ensures
        ({
            let l = ascii_lower(value);
            &&& (severity_style(value) == SegmentStyle::Fg(SegmentColor::Red)) <==> (l == seq!['e', 'r', 'r', 'o', 'r']
                || l == seq!['e', 'r', 'r'] || l == seq!['f', 'a', 't', 'a', 'l'])
            &&& (severity_style(value) == SegmentStyle::Fg(SegmentColor::Yellow)) <==> (l == seq!['w', 'a', 'r', 'n']
                || l == seq!['w', 'a', 'r', 'n', 'i', 'n', 'g'])
            &&& (severity_style(value) == SegmentStyle::Fg(SegmentColor::Green)) <==> l == seq!['i', 'n', 'f', 'o']
            &&& (severity_style(value) == SegmentStyle::Fg(SegmentColor::Cyan)) <==> l == seq!['d', 'e', 'b', 'u', 'g']
            &&& (severity_style(value) == SegmentStyle::Fg(SegmentColor::Gray)) <==> l == seq!['t', 'r', 'a', 'c', 'e']
            &&& (severity_style(value) == SegmentStyle::Default) <==> !(l == seq!['e', 'r', 'r', 'o', 'r'] || l == seq![
                'e',
                'r',
                'r',
            ] || l == seq!['f', 'a', 't', 'a', 'l'] || l == seq!['w', 'a', 'r', 'n'] || l == seq![
                'w',
                'a',
                'r',
                'n',
                'i',
                'n',
                'g',
            ] || l == seq!['i', 'n', 'f', 'o'] || l == seq!['d', 'e', 'b', 'u', 'g'] || l == seq![
                't',
                'r',
                'a',
                'c',
                'e',
            ])
        }),
        severity_style(value) == severity_style(ascii_lower(value)),
{
    reveal_strlit("error");
    reveal_strlit("err");
    reveal_strlit("fatal");
    reveal_strlit("warn");
    reveal_strlit("warning");
    reveal_strlit("info");
    reveal_strlit("debug");
    reveal_strlit("trace");
    assert("error"@ =~= seq!['e', 'r', 'r', 'o', 'r']);
    assert("err"@ =~= seq!['e', 'r', 'r']);
    assert("fatal"@ =~= seq!['f', 'a', 't', 'a', 'l']);
    assert("warn"@ =~= seq!['w', 'a', 'r', 'n']);
    assert("warning"@ =~= seq!['w', 'a', 'r', 'n', 'i', 'n', 'g']);
    assert("info"@ =~= seq!['i', 'n', 'f', 'o']);
    assert("debug"@ =~= seq!['d', 'e', 'b', 'u', 'g']);
    assert("trace"@ =~= seq!['t', 'r', 'a', 'c', 'e']);
    assert(ascii_lower(ascii_lower(value)) =~= ascii_lower(value));
}

/// The named standard colors that a segment color and a terminal color
/// share.
pub open spec fn standard_color(c: SegmentColor) -> Option<Color> {
    match c {
        SegmentColor::Red => Some(Color::Red),
        SegmentColor::Green => Some(Color::Green),
        SegmentColor::Yellow => Some(Color::Yellow),
        SegmentColor::Blue => Some(Color::Blue),
        SegmentColor::Magenta => Some(Color::Magenta),
        SegmentColor::Cyan => Some(Color::Cyan),
        SegmentColor::White => Some(Color::White),
        SegmentColor::Gray => Some(Color::Gray),
        SegmentColor::Palette(_) => None,
    }
}

/// Position of a color among the eight standard SGR colors (black, red,
/// green, yellow, blue, magenta, cyan, white).
pub open spec fn sgr_color_number(c: SegmentColor) -> int {
    match c {
        SegmentColor::Red => 1,
        SegmentColor::Green => 2,
        SegmentColor::Yellow => 3,
        SegmentColor::Blue => 4,
        SegmentColor::Magenta => 5,
        SegmentColor::Cyan => 6,
        SegmentColor::White => 7,
        _ => 0,
    }
}

/// A named segment color is written with the standard SGR foreground code:
/// `30` plus its place among the eight standard colors, and `90` (bright
/// black) for gray; it is the code of the terminal color of the same name,
/// and two different named colors never share a code.
pub proof fn lemma_segment_color_codes(c: SegmentColor, d: SegmentColor, palette: Option<Palette>)
    ensures
        standard_color(c) is Some && !(c is Gray) ==> segment_color_ansi(c, palette) == decimal(
            (30 + sgr_color_number(c)) as nat,
        ),
        c is Gray ==> segment_color_ansi(c, palette) == decimal(90),
        standard_color(c) matches Some(t) ==> segment_color_ansi(c, palette) == color_ansi(t),
        standard_color(c) is Some && standard_color(d) is Some && c != d ==> segment_color_ansi(c, palette)
            != segment_color_ansi(d, palette),
{
    reveal_strlit("31");
    reveal_strlit("32");
    reveal_strlit("33");
    reveal_strlit("34");
    reveal_strlit("35");
    reveal_strlit("36");
    reveal_strlit("37");
    reveal_strlit("90");
    reveal_with_fuel(decimal, 3);
    assert(decimal(31) =~= "31"@);
    assert(decimal(32) =~= "32"@);
    assert(decimal(33) =~= "33"@);
    assert(decimal(34) =~= "34"@);
    assert(decimal(35) =~= "35"@);
    assert(decimal(36) =~= "36"@);
    assert(decimal(37) =~= "37"@);
    assert(decimal(90) =~= "90"@);
    if standard_color(c) is Some && standard_color(d) is Some && c != d {
        let x = segment_color_ansi(c, palette);
        let y = segment_color_ansi(d, palette);
        assert(x.len() == 2 && y.len() == 2);
        assert(x[0] != y[0] || x[1] != y[1]);
    }
}

} // verus!
