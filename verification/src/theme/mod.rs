//! Colors and themes: color names in configuration, the base palette, and
//! the interface colors derived from it.
pub mod loader;

use crate::text::{str_chars, str_eq, push_str, string_from_chars, str_trim, trim_ws};
use crate::renderer::segment::{ascii_lower, to_ascii_lowercase};
use vstd::prelude::*;
use vstd::utf8::{encode_utf8, is_char_boundary};

verus! {

/// A terminal color: a named ANSI color, an RGB value, an indexed palette
/// entry, or the terminal's default.
#[derive(Debug, Clone, Copy, PartialEq, Eq, Structural)]
pub enum Color {
    Reset,
    Black,
    Red,
    Green,
    Yellow,
    Blue,
    Magenta,
    Cyan,
    Gray,
    DarkGray,
    LightRed,
    LightGreen,
    LightYellow,
    LightBlue,
    LightMagenta,
    LightCyan,
    White,
    Rgb(u8, u8, u8),
    Indexed(u8),
}

/// A named color suitable for YAML config deserialization.
/// Wraps a [`Color`] with support for named colors, hex, and "default".
#[derive(Debug, Clone, Copy, PartialEq, Eq, Structural)]
pub struct ThemeColor(pub Color);

/// The value of an ASCII hexadecimal digit byte.
pub open spec fn hex_digit(b: u8) -> Option<int> {
    if 48 <= b <= 57 {
        Some(b - 48)
    } else if 97 <= b <= 102 {
        Some(b - 87)
    } else if 65 <= b <= 70 {
        Some(b - 55)
    } else {
        None
    }
}

/// Value of hexadecimal digits (most significant first).
pub open spec fn hex_digits_value(b: Seq<u8>) -> Option<int>
    decreases b.len(),
{
    if b.len() == 0 {
        Some(0)
    } else {
        match (hex_digits_value(b.drop_last()), hex_digit(b.last())) {
            (Some(v), Some(d)) => Some(16 * v + d),
            _ => None,
        }
    }
}

/// `u8::from_str_radix(s, 16)` for a text of at most two bytes: an optional
/// `+` followed by at least one hexadecimal digit.
pub open spec fn radix16(b: Seq<u8>) -> Option<int> {
    let d = if b.len() > 0 && b[0] == 43 {
        b.drop_first()
    } else {
        b
    };
    if d.len() == 0 {
        None
    } else {
        hex_digits_value(d)
    }
}

/// The color a hex code (the text after `#`) stands for: `rrggbb`, or `rgb`
/// with each digit doubled; `None` when it is neither.
pub open spec fn hex_color(hex: Seq<char>) -> Option<Color> {
    let b = encode_utf8(hex);
    if b.len() == 6 {
        match (radix16(b.subrange(0, 2)), radix16(b.subrange(2, 4)), radix16(b.subrange(4, 6))) {
            (Some(r), Some(g), Some(bl)) => Some(Color::Rgb(r as u8, g as u8, bl as u8)),
            _ => None,
        }
    } else if b.len() == 3 {
        match (radix16(b.subrange(0, 1)), radix16(b.subrange(1, 2)), radix16(b.subrange(2, 3))) {
            (Some(r), Some(g), Some(bl)) => Some(Color::Rgb((r * 17) as u8, (g * 17) as u8, (bl * 17) as u8)),
            _ => None,
        }
    } else {
        None
    }
}

/// Whether cutting a hex code into its digit groups would split a
/// character (the groups are cut by byte position, group after group, and
/// the cutting stops at the first group that is not a number).
pub open spec fn hex_cut_splits_char(hex: Seq<char>) -> bool {
    let b = encode_utf8(hex);
    if b.len() == 6 {
        !is_char_boundary(b, 2) || (radix16(b.subrange(0, 2)) is Some && !is_char_boundary(b, 4))
    } else if b.len() == 3 {
        !is_char_boundary(b, 1) || (radix16(b.subrange(0, 1)) is Some && !is_char_boundary(b, 2))
    } else {
        false
    }
}

/// What `str::to_lowercase` makes of a text.
pub uninterp spec fn lowercased(s: Seq<char>) -> Seq<char>;

/// `str::to_lowercase`: the Unicode lower-case mapping of the text.
#[verifier::external_body]
fn to_lowercase(s: &str) -> (r: String)
    ensures
        r@ == lowercased(s@),
{
    s.to_lowercase()
}

/// The color a lower-case color name stands for.
pub open spec fn named_color(l: Seq<char>) -> Option<Color> {
    if l == "black"@ {
        Some(Color::Black)
    } else if l == "red"@ {
        Some(Color::Red)
    } else if l == "green"@ {
        Some(Color::Green)
    } else if l == "yellow"@ {
        Some(Color::Yellow)
    } else if l == "blue"@ {
        Some(Color::Blue)
    } else if l == "magenta"@ {
        Some(Color::Magenta)
    } else if l == "cyan"@ {
        Some(Color::Cyan)
    } else if l == "gray"@ || l == "grey"@ {
        Some(Color::Gray)
    } else if l == "dark_gray"@ || l == "dark_grey"@ || l == "darkgray"@ || l == "darkgrey"@ {
        Some(Color::DarkGray)
    } else if l == "light_red"@ || l == "lightred"@ {
        Some(Color::LightRed)
    } else if l == "light_green"@ || l == "lightgreen"@ {
        Some(Color::LightGreen)
    } else if l == "light_yellow"@ || l == "lightyellow"@ {
        Some(Color::LightYellow)
    } else if l == "light_blue"@ || l == "lightblue"@ {
        Some(Color::LightBlue)
    } else if l == "light_magenta"@ || l == "lightmagenta"@ {
        Some(Color::LightMagenta)
    } else if l == "light_cyan"@ || l == "lightcyan"@ {
        Some(Color::LightCyan)
    } else if l == "white"@ {
        Some(Color::White)
    } else if l == "reset"@ {
        Some(Color::Reset)
    } else {
        None
    }
}

/// The message for an unknown color name.
pub open spec fn unknown_color_message(s: Seq<char>) -> Seq<char> {
    "unknown color: '"@ + s + "'. Valid names: black, red, green, yellow, blue, magenta, cyan, gray, dark_gray, light_red, light_green, light_yellow, light_blue, light_magenta, light_cyan, white, reset, default, or hex (#rrggbb / #rgb)"@
}

/// What `parse_color` answers for a color text.
pub open spec fn color_parsed(text: Seq<char>) -> Result<Color, Seq<char>> {
    let s = trim_ws(text);
    if ascii_lower(s) == "default"@ {
        Ok(Color::Reset)
    } else if s.len() > 0 && s[0] == '#' {
        match hex_color(s.drop_first()) {
            Some(c) => Ok(c),
            None => Err("invalid hex color: #"@ + s.drop_first()),
        }
    } else {
        match named_color(lowercased(s)) {
            Some(c) => Ok(c),
            None => Err(unknown_color_message(s)),
        }
    }
}

/// Whether parsing the text would cut a hex code inside a character.
pub open spec fn color_parse_splits_char(text: Seq<char>) -> bool {
    let s = trim_ws(text);
    ascii_lower(s) != "default"@ && s.len() > 0 && s[0] == '#' && hex_cut_splits_char(s.drop_first())
}

/// `u8::from_str_radix(text, 16)` on the bytes `b[a..e]` (at most two).
fn radix16_at(b: &[u8], a: usize, e: usize) -> (r: Option<u8>)
    requires
        a <= e <= b@.len(),
        e - a <= 2,
    ensures
        match r {
            Some(v) => radix16(b@.subrange(a as int, e as int)) == Some(v as int),
            None => radix16(b@.subrange(a as int, e as int)) is None,
        },
        e - a <= 1 ==> (r matches Some(v) ==> v < 16),
{
    let ghost w = b@.subrange(a as int, e as int);
    let mut i = a;
    if i < e && b[i] == 43u8 {
        i = i + 1;
        assert(w.drop_first() =~= b@.subrange(i as int, e as int));
    } else {
        assert(w =~= b@.subrange(i as int, e as int));
    }
    if i == e {
        return None;
    }
    let start = i;
    proof {
        assert(radix16(w) == hex_digits_value(b@.subrange(start as int, e as int)));
    }
    let mut v: u32 = 0;
    assert(b@.subrange(start as int, start as int) =~= Seq::<u8>::empty());
    while i < e
        invariant
            a <= start <= i <= e <= b@.len(),
            e - start <= 2,
            radix16(b@.subrange(a as int, e as int)) == hex_digits_value(b@.subrange(start as int, e as int)),
            hex_digits_value(b@.subrange(start as int, i as int)) == Some(v as int),
            v < pow16(i - start),
        decreases e - i,
    {
        let c = b[i];
        let dv: u32 = if 48u8 <= c && c <= 57u8 {
            (c - 48u8) as u32
        } else if 97u8 <= c && c <= 102u8 {
            (c - 87u8) as u32
        } else if 65u8 <= c && c <= 70u8 {
            (c - 55u8) as u32
        } else {
            assert(b@.subrange(start as int, i + 1).drop_last() =~= b@.subrange(start as int, i as int));
            assert(b@.subrange(start as int, e as int) =~= b@.subrange(start as int, i + 1) + b@.subrange(
                i + 1,
                e as int,
            ));
            proof {
                assert(hex_digit(c) is None);
                assert(hex_digits_value(b@.subrange(start as int, i + 1)) is None);
                assert(b@.subrange(start as int, e as int).subrange(0, i + 1 - start) =~= b@.subrange(
                    start as int,
                    i + 1,
                ));
                lemma_hex_digits_prefix_fails(b@.subrange(start as int, e as int), i + 1 - start);
            }
            return None;
        };
        assert(b@.subrange(start as int, i + 1).drop_last() =~= b@.subrange(start as int, i as int));
        v = 16 * v + dv;
        i = i + 1;
    }
    Some(v as u8)
}

/// `16^n` for the few digits a color code has.
pub open spec fn pow16(n: int) -> int {
    if n <= 0 {
        1
    } else if n == 1 {
        16
    } else {
        256
    }
}

/// A prefix that is not made of hexadecimal digits makes the whole not one.
proof fn lemma_hex_digits_prefix_fails(b: Seq<u8>, k: int)
    requires
        0 < k <= b.len(),
        hex_digits_value(b.subrange(0, k)) is None,
    ensures
        hex_digits_value(b) is None,
    decreases b.len() - k,
{
    if k < b.len() {
        assert(b.subrange(0, k + 1).drop_last() =~= b.subrange(0, k));
        lemma_hex_digits_prefix_fails(b, k + 1);
    } else {
        assert(b.subrange(0, k) =~= b);
    }
}

/// The message for a hex code that is not a color.
fn invalid_hex_message(hex: &str) -> (r: String)
    ensures
        r@ == "invalid hex color: #"@ + hex@,
{
    let mut out: Vec<char> = Vec::new();
    push_str(&mut out, "invalid hex color: #");
    push_str(&mut out, hex);
    string_from_chars(out.as_slice())
}

/// Parse the hex digits of a color code (`rrggbb` or `rgb`).
fn parse_hex_color(hex: &str) -> (r: Result<Color, String>)
    requires
        !hex_cut_splits_char(hex@),
    ensures
        match hex_color(hex@) {
            Some(c) => r == Ok::<Color, String>(c),
            None => r matches Err(m) && m@ == "invalid hex color: #"@ + hex@,
        },
{
    let b = hex.as_bytes();
    proof {
        assert(b@ == encode_utf8(hex@));
    }
    if b.len() == 6 {
        let r = radix16_at(b, 0, 2);
        let g = radix16_at(b, 2, 4);
        let bl = radix16_at(b, 4, 6);
        match (r, g, bl) {
            (Some(r), Some(g), Some(bl)) => Ok(Color::Rgb(r, g, bl)),
            _ => Err(invalid_hex_message(hex)),
        }
    } else if b.len() == 3 {
        let r = radix16_at(b, 0, 1);
        let g = radix16_at(b, 1, 2);
        let bl = radix16_at(b, 2, 3);
        match (r, g, bl) {
            (Some(r), Some(g), Some(bl)) => Ok(Color::Rgb(r * 17, g * 17, bl * 17)),
            _ => Err(invalid_hex_message(hex)),
        }
    } else {
        Err(invalid_hex_message(hex))
    }
}

/// The message for an unknown color name.
fn unknown_color(s: &str) -> (r: String)
    ensures
        r@ == unknown_color_message(s@),
{
    let mut out: Vec<char> = Vec::new();
    push_str(&mut out, "unknown color: '");
    push_str(&mut out, s);
    push_str(
        &mut out,
        "'. Valid names: black, red, green, yellow, blue, magenta, cyan, gray, dark_gray, light_red, light_green, light_yellow, light_blue, light_magenta, light_cyan, white, reset, default, or hex (#rrggbb / #rgb)",
    );
    string_from_chars(out.as_slice())
}

/// Parse a color name, without regard to case.
fn parse_named_color(s: &str) -> (r: Result<Color, String>)
    ensures
        match named_color(lowercased(s@)) {
            Some(c) => r == Ok::<Color, String>(c),
            None => r matches Err(m) && m@ == unknown_color_message(s@),
        },
{
    let lower = to_lowercase(s);
    let l = lower.as_str();
    if str_eq(l, "black") {
        Ok(Color::Black)
    } else if str_eq(l, "red") {
        Ok(Color::Red)
    } else if str_eq(l, "green") {
        Ok(Color::Green)
    } else if str_eq(l, "yellow") {
        Ok(Color::Yellow)
    } else if str_eq(l, "blue") {
        Ok(Color::Blue)
    } else if str_eq(l, "magenta") {
        Ok(Color::Magenta)
    } else if str_eq(l, "cyan") {
        Ok(Color::Cyan)
    } else if str_eq(l, "gray") || str_eq(l, "grey") {
        Ok(Color::Gray)
    } else if str_eq(l, "dark_gray") || str_eq(l, "dark_grey") || str_eq(l, "darkgray") || str_eq(l, "darkgrey") {
        Ok(Color::DarkGray)
    } else if str_eq(l, "light_red") || str_eq(l, "lightred") {
        Ok(Color::LightRed)
    } else if str_eq(l, "light_green") || str_eq(l, "lightgreen") {
        Ok(Color::LightGreen)
    } else if str_eq(l, "light_yellow") || str_eq(l, "lightyellow") {
        Ok(Color::LightYellow)
    } else if str_eq(l, "light_blue") || str_eq(l, "lightblue") {
        Ok(Color::LightBlue)
    } else if str_eq(l, "light_magenta") || str_eq(l, "lightmagenta") {
        Ok(Color::LightMagenta)
    } else if str_eq(l, "light_cyan") || str_eq(l, "lightcyan") {
        Ok(Color::LightCyan)
    } else if str_eq(l, "white") {
        Ok(Color::White)
    } else if str_eq(l, "reset") {
        Ok(Color::Reset)
    } else {
        Err(unknown_color(s))
    }
}

/// Parse a color string into a [`Color`].
///
/// Supports:
/// - Named colors: `red`, `dark_gray`, `light_cyan`, etc.
/// - Hex: `#rrggbb` or `#rgb`
/// - `"default"` → `Color::Reset`
pub fn parse_color(s: &str) -> (r: Result<Color, String>)
    requires
        !color_parse_splits_char(s@),
    ensures
        match color_parsed(s@) {
            Ok(c) => r == Ok::<Color, String>(c),
            Err(m) => r matches Err(e) && e@ == m,
        },
{
    let t = str_trim(s);
    let low = to_ascii_lowercase(t);
    if str_eq(low.as_str(), "default") {
        return Ok(Color::Reset);
    }
    let cs = str_chars(t);
    if cs.len() > 0 && cs[0] == '#' {
        let rest = crate::text::string_from_char_range(cs.as_slice(), 1, cs.len());
        assert(rest@ =~= t@.drop_first());
        return parse_hex_color(rest.as_str());
    }
    parse_named_color(t)
}

/// The base color palette (16 ANSI colors + foreground/background/selection).
#[derive(Debug, Clone, Copy, PartialEq, Eq, Structural)]
pub struct Palette {
    pub black: Color,
    pub red: Color,
    pub green: Color,
    pub yellow: Color,
    pub blue: Color,
    pub magenta: Color,
    pub cyan: Color,
    pub white: Color,
    pub bright_black: Color,
    pub bright_red: Color,
    pub bright_green: Color,
    pub bright_yellow: Color,
    pub bright_blue: Color,
    pub bright_magenta: Color,
    pub bright_cyan: Color,
    pub bright_white: Color,
    pub foreground: Color,
    pub background: Color,
    pub selection: Color,
}

/// Semantic UI colors derived from a palette (individually overridable).
#[derive(Debug, Clone, PartialEq)]
pub struct UiColors {
    pub fg: Color,
    pub muted: Color,
    pub accent: Color,
    pub highlight: Color,
    pub primary: Color,
    pub positive: Color,
    pub negative: Color,
    pub selection_bg: Color,
    pub selection_fg: Color,
    pub expanded_bg: Color,
    pub severity_warn_bg: Color,
    pub severity_error_bg: Color,
    pub severity_fatal_bg: Color,
    pub severity_fatal: Color,
    pub severity_error: Color,
    pub severity_warn: Color,
    pub severity_info: Color,
    pub severity_debug: Color,
    pub severity_trace: Color,
    pub filter_plain: Color,
    pub filter_regex: Color,
    pub filter_query: Color,
    pub filter_error: Color,
    pub popup_bg: Color,
    pub source_colors: Vec<Color>,
}

/// Whether a background color is light: the light named colors, and RGB
/// colors whose channels add up to more than 384.
pub open spec fn light_background(c: Color) -> bool {
    match c {
        Color::White | Color::LightYellow | Color::LightGreen | Color::LightBlue | Color::LightCyan
        | Color::LightMagenta | Color::LightRed => true,
        Color::Rgb(r, g, b) => r + g + b > 384,
        _ => false,
    }
}

/// The colors derived from the palette: `(expanded_bg, severity_warn_bg,
/// severity_error_bg, severity_fatal_bg, popup_bg)`.
pub open spec fn derived_backgrounds(p: Palette) -> (Color, Color, Color, Color, Color) {
    if light_background(p.background) {
        (Color::Rgb(230, 230, 240), Color::Rgb(255, 248, 220), Color::Rgb(255, 230, 230), Color::Rgb(255, 220, 235), p.white)
    } else {
        (Color::Rgb(30, 30, 40), Color::Rgb(50, 40, 0), Color::Rgb(55, 10, 10), Color::Rgb(75, 0, 15), p.black)
    }
}

/// `ui` holds the colors derived from palette `p`.
pub open spec fn derived_from(ui: UiColors, p: Palette) -> bool {
    let bg = derived_backgrounds(p);
    &&& ui.fg == p.foreground
    &&& ui.muted == p.bright_black
    &&& ui.accent == p.cyan
    &&& ui.highlight == p.magenta
    &&& ui.primary == p.yellow
    &&& ui.positive == p.green
    &&& ui.negative == p.red
    &&& ui.selection_bg == p.selection
    &&& ui.selection_fg == p.foreground
    &&& ui.severity_fatal == p.magenta
    &&& ui.severity_error == p.red
    &&& ui.severity_warn == p.yellow
    &&& ui.severity_info == p.green
    &&& ui.severity_debug == p.cyan
    &&& ui.severity_trace == p.bright_black
    &&& ui.filter_plain == p.white
    &&& ui.filter_regex == p.cyan
    &&& ui.filter_query == p.magenta
    &&& ui.filter_error == p.red
    &&& ui.expanded_bg == bg.0
    &&& ui.severity_warn_bg == bg.1
    &&& ui.severity_error_bg == bg.2
    &&& ui.severity_fatal_bg == bg.3
    &&& ui.popup_bg == bg.4
    &&& ui.source_colors@ == seq![p.cyan, p.green, p.yellow, p.magenta, p.blue, p.red, p.bright_cyan, p.bright_green]
}

/// The palette color named by one of the palette's field names.
pub open spec fn palette_field(p: Palette, name: Seq<char>) -> Option<Color> {
    if name == "black"@ {
        Some(p.black)
    } else if name == "red"@ {
        Some(p.red)
    } else if name == "green"@ {
        Some(p.green)
    } else if name == "yellow"@ {
        Some(p.yellow)
    } else if name == "blue"@ {
        Some(p.blue)
    } else if name == "magenta"@ {
        Some(p.magenta)
    } else if name == "cyan"@ {
        Some(p.cyan)
    } else if name == "white"@ {
        Some(p.white)
    } else if name == "bright_black"@ {
        Some(p.bright_black)
    } else if name == "bright_red"@ {
        Some(p.bright_red)
    } else if name == "bright_green"@ {
        Some(p.bright_green)
    } else if name == "bright_yellow"@ {
        Some(p.bright_yellow)
    } else if name == "bright_blue"@ {
        Some(p.bright_blue)
    } else if name == "bright_magenta"@ {
        Some(p.bright_magenta)
    } else if name == "bright_cyan"@ {
        Some(p.bright_cyan)
    } else if name == "bright_white"@ {
        Some(p.bright_white)
    } else if name == "foreground"@ {
        Some(p.foreground)
    } else if name == "background"@ {
        Some(p.background)
    } else if name == "selection"@ {
        Some(p.selection)
    } else {
        None
    }
}

/// The dark palette.
pub open spec fn dark_palette() -> Palette {
    Palette {
        black: Color::Black,
        red: Color::Red,
        green: Color::Green,
        yellow: Color::Yellow,
        blue: Color::Blue,
        magenta: Color::Magenta,
        cyan: Color::Cyan,
        white: Color::White,
        bright_black: Color::DarkGray,
        bright_red: Color::LightRed,
        bright_green: Color::LightGreen,
        bright_yellow: Color::LightYellow,
        bright_blue: Color::LightBlue,
        bright_magenta: Color::LightMagenta,
        bright_cyan: Color::LightCyan,
        bright_white: Color::White,
        foreground: Color::White,
        background: Color::Black,
        selection: Color::DarkGray,
    }
}

/// The light palette.
pub open spec fn light_palette() -> Palette {
    Palette {
        black: Color::Black,
        red: Color::Red,
        green: Color::Rgb(0, 128, 0),
        yellow: Color::Rgb(128, 128, 0),
        blue: Color::Blue,
        magenta: Color::Magenta,
        cyan: Color::Rgb(0, 128, 128),
        white: Color::White,
        bright_black: Color::DarkGray,
        bright_red: Color::LightRed,
        bright_green: Color::LightGreen,
        bright_yellow: Color::LightYellow,
        bright_blue: Color::LightBlue,
        bright_magenta: Color::LightMagenta,
        bright_cyan: Color::LightCyan,
        bright_white: Color::White,
        foreground: Color::Black,
        background: Color::White,
        selection: Color::Rgb(200, 200, 200),
    }
}

impl Palette {
    pub fn dark() -> (r: Self)
        ensures
            r == dark_palette(),
    {
        Self {
            black: Color::Black,
            red: Color::Red,
            green: Color::Green,
            yellow: Color::Yellow,
            blue: Color::Blue,
            magenta: Color::Magenta,
            cyan: Color::Cyan,
            white: Color::White,
            bright_black: Color::DarkGray,
            bright_red: Color::LightRed,
            bright_green: Color::LightGreen,
            bright_yellow: Color::LightYellow,
            bright_blue: Color::LightBlue,
            bright_magenta: Color::LightMagenta,
            bright_cyan: Color::LightCyan,
            bright_white: Color::White,
            foreground: Color::White,
            background: Color::Black,
            selection: Color::DarkGray,
        }
    }

    pub fn light() -> (r: Self)
        ensures
            r == light_palette(),
    {
        Self {
            black: Color::Black,
            red: Color::Red,
            green: Color::Rgb(0, 128, 0),
            yellow: Color::Rgb(128, 128, 0),
            blue: Color::Blue,
            magenta: Color::Magenta,
            cyan: Color::Rgb(0, 128, 128),
            white: Color::White,
            bright_black: Color::DarkGray,
            bright_red: Color::LightRed,
            bright_green: Color::LightGreen,
            bright_yellow: Color::LightYellow,
            bright_blue: Color::LightBlue,
            bright_magenta: Color::LightMagenta,
            bright_cyan: Color::LightCyan,
            bright_white: Color::White,
            foreground: Color::Black,
            background: Color::White,
            selection: Color::Rgb(200, 200, 200),
        }
    }

    /// The color of the palette field with this name (`red`,
    /// `bright_black`, `foreground`, ...), if there is one.
    pub fn get_color(&self, name: &str) -> (r: Option<Color>)
        ensures
            r == palette_field(*self, name@),
    {
        if str_eq(name, "black") {
            Some(self.black)
        } else if str_eq(name, "red") {
            Some(self.red)
        } else if str_eq(name, "green") {
            Some(self.green)
        } else if str_eq(name, "yellow") {
            Some(self.yellow)
        } else if str_eq(name, "blue") {
            Some(self.blue)
        } else if str_eq(name, "magenta") {
            Some(self.magenta)
        } else if str_eq(name, "cyan") {
            Some(self.cyan)
        } else if str_eq(name, "white") {
            Some(self.white)
        } else if str_eq(name, "bright_black") {
            Some(self.bright_black)
        } else if str_eq(name, "bright_red") {
            Some(self.bright_red)
        } else if str_eq(name, "bright_green") {
            Some(self.bright_green)
        } else if str_eq(name, "bright_yellow") {
            Some(self.bright_yellow)
        } else if str_eq(name, "bright_blue") {
            Some(self.bright_blue)
        } else if str_eq(name, "bright_magenta") {
            Some(self.bright_magenta)
        } else if str_eq(name, "bright_cyan") {
            Some(self.bright_cyan)
        } else if str_eq(name, "bright_white") {
            Some(self.bright_white)
        } else if str_eq(name, "foreground") {
            Some(self.foreground)
        } else if str_eq(name, "background") {
            Some(self.background)
        } else if str_eq(name, "selection") {
            Some(self.selection)
        } else {
            None
        }
    }

    /// Derive semantic UI colors from this palette.
    pub fn derive_ui_colors(&self) -> (r: UiColors)
        ensures
            derived_from(r, *self),
    {
        let light_bg = self.is_background_light();
        let (expanded_bg, severity_warn_bg, severity_error_bg, severity_fatal_bg, popup_bg) =
            if light_bg {
            (
                Color::Rgb(230, 230, 240),
                Color::Rgb(255, 248, 220),
                Color::Rgb(255, 230, 230),
                Color::Rgb(255, 220, 235),
                self.white,
            )
        } else {
            (
                Color::Rgb(30, 30, 40),
                Color::Rgb(50, 40, 0),
                Color::Rgb(55, 10, 10),
                Color::Rgb(75, 0, 15),
                self.black,
            )
        };
        let source_colors = vec![
            self.cyan,
            self.green,
            self.yellow,
            self.magenta,
            self.blue,
            self.red,
            self.bright_cyan,
            self.bright_green,
        ];
        UiColors {
            fg: self.foreground,
            muted: self.bright_black,
            accent: self.cyan,
            highlight: self.magenta,
            primary: self.yellow,
            positive: self.green,
            negative: self.red,
            selection_bg: self.selection,
            selection_fg: self.foreground,
            expanded_bg,
            severity_warn_bg,
            severity_error_bg,
            severity_fatal_bg,
            severity_fatal: self.magenta,
            severity_error: self.red,
            severity_warn: self.yellow,
            severity_info: self.green,
            severity_debug: self.cyan,
            severity_trace: self.bright_black,
            filter_plain: self.white,
            filter_regex: self.cyan,
            filter_query: self.magenta,
            filter_error: self.red,
            popup_bg,
            source_colors,
        }
    }

    /// Check if the palette background is light (for deriving appropriate UI colors).
    fn is_background_light(&self) -> (r: bool)
        ensures
            r == light_background(self.background),
    {
        match self.background {
            Color::White | Color::LightYellow | Color::LightGreen | Color::LightBlue | Color::LightCyan
            | Color::LightMagenta | Color::LightRed => true,
            Color::Rgb(r, g, b) => (r as u16 + g as u16 + b as u16) > 384,
            _ => false,
        }
    }
}

/// A complete theme: palette + derived/overridden UI colors.
#[derive(Debug, Clone, PartialEq)]
pub struct Theme {
    pub palette: Palette,
    pub ui: UiColors,
}

impl Theme {
    pub fn dark() -> (r: Self)
        ensures
            r.palette == dark_palette(),
            derived_from(r.ui, r.palette),
    {
        let palette = Palette::dark();
        let ui = palette.derive_ui_colors();
        Self { palette, ui }
    }

    pub fn light() -> (r: Self)
        ensures
            r.palette == light_palette(),
            derived_from(r.ui, r.palette),
    {
        let palette = Palette::light();
        let ui = palette.derive_ui_colors();
        Self { palette, ui }
    }
}

impl Default for Theme {
    fn default() -> (r: Self)
        ensures
            r.palette == dark_palette(),
            derived_from(r.ui, r.palette),
    {
        Self::dark()
    }
}

/// Raw theme config from YAML — either a named string or a custom struct.
#[derive(Debug)]
pub enum RawThemeConfig {
    Named(String),
    Custom { base: Option<String>, palette: Option<RawPalette>, ui: Option<RawUiColors> },
}

/// Raw palette with all optional fields for partial overrides.
#[derive(Debug, Default)]
pub struct RawPalette {
    pub black: Option<ThemeColor>,
    pub red: Option<ThemeColor>,
    pub green: Option<ThemeColor>,
    pub yellow: Option<ThemeColor>,
    pub blue: Option<ThemeColor>,
    pub magenta: Option<ThemeColor>,
    pub cyan: Option<ThemeColor>,
    pub white: Option<ThemeColor>,
    pub bright_black: Option<ThemeColor>,
    pub bright_red: Option<ThemeColor>,
    pub bright_green: Option<ThemeColor>,
    pub bright_yellow: Option<ThemeColor>,
    pub bright_blue: Option<ThemeColor>,
    pub bright_magenta: Option<ThemeColor>,
    pub bright_cyan: Option<ThemeColor>,
    pub bright_white: Option<ThemeColor>,
    pub foreground: Option<ThemeColor>,
    pub background: Option<ThemeColor>,
    pub selection: Option<ThemeColor>,
}

/// Raw UI colors with all optional fields for partial overrides.
#[derive(Debug, Default)]
pub struct RawUiColors {
    pub fg: Option<ThemeColor>,
    pub muted: Option<ThemeColor>,
    pub accent: Option<ThemeColor>,
    pub highlight: Option<ThemeColor>,
    pub primary: Option<ThemeColor>,
    pub positive: Option<ThemeColor>,
    pub negative: Option<ThemeColor>,
    pub selection_bg: Option<ThemeColor>,
    pub selection_fg: Option<ThemeColor>,
    pub expanded_bg: Option<ThemeColor>,
    pub severity_warn_bg: Option<ThemeColor>,
    pub severity_error_bg: Option<ThemeColor>,
    pub severity_fatal_bg: Option<ThemeColor>,
    pub severity_fatal: Option<ThemeColor>,
    pub severity_error: Option<ThemeColor>,
    pub severity_warn: Option<ThemeColor>,
    pub severity_info: Option<ThemeColor>,
    pub severity_debug: Option<ThemeColor>,
    pub severity_trace: Option<ThemeColor>,
    pub filter_plain: Option<ThemeColor>,
    pub filter_regex: Option<ThemeColor>,
    pub filter_query: Option<ThemeColor>,
    pub filter_error: Option<ThemeColor>,
    pub popup_bg: Option<ThemeColor>,
    pub source_colors: Option<Vec<ThemeColor>>,
}

} // verus!
