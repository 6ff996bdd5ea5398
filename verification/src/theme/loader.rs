//! Resolving a theme configuration: a built-in theme by name, or a base
//! theme with palette and interface color overrides.
use super::{
    Color, Palette, RawPalette, RawThemeConfig, RawUiColors, Theme, ThemeColor, UiColors,
    dark_palette, light_palette, derived_from,
};
use crate::text::{push_str, str_eq, string_from_chars};
use vstd::prelude::*;

verus! {

/// A color with an optional override applied.
pub open spec fn overridden(c: Color, o: Option<ThemeColor>) -> Color {
    match o {
        Some(t) => t.0,
        None => c,
    }
}

/// `p` with the colors that `raw` sets replaced.
pub open spec fn palette_overridden(p: Palette, raw: RawPalette) -> Palette {
    Palette {
        black: overridden(p.black, raw.black),
        red: overridden(p.red, raw.red),
        green: overridden(p.green, raw.green),
        yellow: overridden(p.yellow, raw.yellow),
        blue: overridden(p.blue, raw.blue),
        magenta: overridden(p.magenta, raw.magenta),
        cyan: overridden(p.cyan, raw.cyan),
        white: overridden(p.white, raw.white),
        bright_black: overridden(p.bright_black, raw.bright_black),
        bright_red: overridden(p.bright_red, raw.bright_red),
        bright_green: overridden(p.bright_green, raw.bright_green),
        bright_yellow: overridden(p.bright_yellow, raw.bright_yellow),
        bright_blue: overridden(p.bright_blue, raw.bright_blue),
        bright_magenta: overridden(p.bright_magenta, raw.bright_magenta),
        bright_cyan: overridden(p.bright_cyan, raw.bright_cyan),
        bright_white: overridden(p.bright_white, raw.bright_white),
        foreground: overridden(p.foreground, raw.foreground),
        background: overridden(p.background, raw.background),
        selection: overridden(p.selection, raw.selection),
    }
}

/// `new` is `old` with the colors that `raw` sets replaced; the source
/// colors are replaced by a non-empty list only.
pub open spec fn ui_overridden(new: UiColors, old: UiColors, raw: RawUiColors) -> bool {
    &&& new.fg == overridden(old.fg, raw.fg)
    &&& new.muted == overridden(old.muted, raw.muted)
    &&& new.accent == overridden(old.accent, raw.accent)
    &&& new.highlight == overridden(old.highlight, raw.highlight)
    &&& new.primary == overridden(old.primary, raw.primary)
    &&& new.positive == overridden(old.positive, raw.positive)
    &&& new.negative == overridden(old.negative, raw.negative)
    &&& new.selection_bg == overridden(old.selection_bg, raw.selection_bg)
    &&& new.selection_fg == overridden(old.selection_fg, raw.selection_fg)
    &&& new.expanded_bg == overridden(old.expanded_bg, raw.expanded_bg)
    &&& new.severity_warn_bg == overridden(old.severity_warn_bg, raw.severity_warn_bg)
    &&& new.severity_error_bg == overridden(old.severity_error_bg, raw.severity_error_bg)
    &&& new.severity_fatal_bg == overridden(old.severity_fatal_bg, raw.severity_fatal_bg)
    &&& new.severity_fatal == overridden(old.severity_fatal, raw.severity_fatal)
    &&& new.severity_error == overridden(old.severity_error, raw.severity_error)
    &&& new.severity_warn == overridden(old.severity_warn, raw.severity_warn)
    &&& new.severity_info == overridden(old.severity_info, raw.severity_info)
    &&& new.severity_debug == overridden(old.severity_debug, raw.severity_debug)
    &&& new.severity_trace == overridden(old.severity_trace, raw.severity_trace)
    &&& new.filter_plain == overridden(old.filter_plain, raw.filter_plain)
    &&& new.filter_regex == overridden(old.filter_regex, raw.filter_regex)
    &&& new.filter_query == overridden(old.filter_query, raw.filter_query)
    &&& new.filter_error == overridden(old.filter_error, raw.filter_error)
    &&& new.popup_bg == overridden(old.popup_bg, raw.popup_bg)
    &&& new.source_colors@ == match raw.source_colors {
        Some(v) => if v@.len() > 0 {
            v@.map_values(|t: ThemeColor| t.0)
        } else {
            old.source_colors@
        },
        None => old.source_colors@,
    }
}

/// The message for an unknown theme name, with a suggestion when there is
/// one.
pub open spec fn unknown_theme_message(name: Seq<char>, suggestion: Option<Seq<char>>) -> Seq<char> {
    "unknown theme '"@ + name + "'. Available themes: dark, light"@ + match suggestion {
        Some(s) => ". Did you mean '"@ + s + "'?"@,
        None => Seq::empty(),
    }
}

/// The palette of a built-in theme name, if it is one.
pub open spec fn builtin_palette(name: Seq<char>) -> Option<Palette> {
    if name == "dark"@ {
        Some(dark_palette())
    } else if name == "light"@ {
        Some(light_palette())
    } else {
        None
    }
}

/// The text of an optional string slice.
pub open spec fn opt_str(o: Option<&str>) -> Option<Seq<char>> {
    match o {
        Some(s) => Some(s@),
        None => None,
    }
}

/// A built-in theme by name. Unknown names are refused with the list of
/// available themes and, when given, the closest known name.
pub fn resolve_named(name: &str, suggestion: Option<&str>) -> (r: Result<Theme, String>)
    ensures
        match builtin_palette(name@) {
            Some(p) => r matches Ok(t) && t.palette == p && derived_from(t.ui, t.palette),
            None => r matches Err(m) && m@ == unknown_theme_message(name@, opt_str(suggestion)),
        },
{
    if str_eq(name, "dark") {
        Ok(Theme::dark())
    } else if str_eq(name, "light") {
        Ok(Theme::light())
    } else {
        let mut out: Vec<char> = Vec::new();
        push_str(&mut out, "unknown theme '");
        push_str(&mut out, name);
        push_str(&mut out, "'. Available themes: dark, light");
        match suggestion {
            Some(s) => {
                push_str(&mut out, ". Did you mean '");
                push_str(&mut out, s);
                push_str(&mut out, "'?");
            },
            None => {},
        }
        Err(string_from_chars(out.as_slice()))
    }
}

/// A color with an optional override applied.
fn over(c: Color, o: Option<ThemeColor>) -> (r: Color)
    ensures
        r == overridden(c, o),
{
    match o {
        Some(t) => t.0,
        None => c,
    }
}

/// Apply the palette colors that `raw` sets.
pub fn apply_palette_overrides(palette: &mut Palette, raw: &RawPalette)
    ensures
        *final(palette) == palette_overridden(*old(palette), *raw),
{
    let p = *palette;
    *palette = Palette {
        black: over(p.black, raw.black),
        red: over(p.red, raw.red),
        green: over(p.green, raw.green),
        yellow: over(p.yellow, raw.yellow),
        blue: over(p.blue, raw.blue),
        magenta: over(p.magenta, raw.magenta),
        cyan: over(p.cyan, raw.cyan),
        white: over(p.white, raw.white),
        bright_black: over(p.bright_black, raw.bright_black),
        bright_red: over(p.bright_red, raw.bright_red),
        bright_green: over(p.bright_green, raw.bright_green),
        bright_yellow: over(p.bright_yellow, raw.bright_yellow),
        bright_blue: over(p.bright_blue, raw.bright_blue),
        bright_magenta: over(p.bright_magenta, raw.bright_magenta),
        bright_cyan: over(p.bright_cyan, raw.bright_cyan),
        bright_white: over(p.bright_white, raw.bright_white),
        foreground: over(p.foreground, raw.foreground),
        background: over(p.background, raw.background),
        selection: over(p.selection, raw.selection),
    };
}

/// Apply the interface colors that `raw` sets; a list of source colors
/// replaces the current one only when it is not empty.
pub fn apply_ui_overrides(ui: &mut UiColors, raw: &RawUiColors)
    ensures
        ui_overridden(*final(ui), *old(ui), *raw),
{
    ui.fg = over(ui.fg, raw.fg);
    ui.muted = over(ui.muted, raw.muted);
    ui.accent = over(ui.accent, raw.accent);
    ui.highlight = over(ui.highlight, raw.highlight);
    ui.primary = over(ui.primary, raw.primary);
    ui.positive = over(ui.positive, raw.positive);
    ui.negative = over(ui.negative, raw.negative);
    ui.selection_bg = over(ui.selection_bg, raw.selection_bg);
    ui.selection_fg = over(ui.selection_fg, raw.selection_fg);
    ui.expanded_bg = over(ui.expanded_bg, raw.expanded_bg);
    ui.severity_warn_bg = over(ui.severity_warn_bg, raw.severity_warn_bg);
    ui.severity_error_bg = over(ui.severity_error_bg, raw.severity_error_bg);
    ui.severity_fatal_bg = over(ui.severity_fatal_bg, raw.severity_fatal_bg);
    ui.severity_fatal = over(ui.severity_fatal, raw.severity_fatal);
    ui.severity_error = over(ui.severity_error, raw.severity_error);
    ui.severity_warn = over(ui.severity_warn, raw.severity_warn);
    ui.severity_info = over(ui.severity_info, raw.severity_info);
    ui.severity_debug = over(ui.severity_debug, raw.severity_debug);
    ui.severity_trace = over(ui.severity_trace, raw.severity_trace);
    ui.filter_plain = over(ui.filter_plain, raw.filter_plain);
    ui.filter_regex = over(ui.filter_regex, raw.filter_regex);
    ui.filter_query = over(ui.filter_query, raw.filter_query);
    ui.filter_error = over(ui.filter_error, raw.filter_error);
    ui.popup_bg = over(ui.popup_bg, raw.popup_bg);
    if let Some(colors) = &raw.source_colors {
        let mut resolved: Vec<Color> = Vec::new();
        let mut i: usize = 0;
        while i < colors.len()
            invariant
                i <= colors@.len(),
                resolved@ == colors@.subrange(0, i as int).map_values(|t: ThemeColor| t.0),
            decreases colors@.len() - i,
        {
            resolved.push(colors[i].0);
            i = i + 1;
            assert(resolved@ =~= colors@.subrange(0, i as int).map_values(|t: ThemeColor| t.0));
        }
        assert(colors@.subrange(0, colors@.len() as int) == colors@);
        if resolved.len() > 0 {
            ui.source_colors = resolved;
        }
    }
}

/// The palette a configuration asks for before interface overrides:
/// `None` when it names an unknown base theme.
pub open spec fn configured_palette(raw: RawThemeConfig) -> Option<Palette> {
    match raw {
        RawThemeConfig::Named(name) => builtin_palette(name@),
        RawThemeConfig::Custom { base, palette, ui } => {
            let bp = match base {
                Some(n) => builtin_palette(n@),
                None => Some(dark_palette()),
            };
            match (bp, palette) {
                (Some(p), Some(rp)) => Some(palette_overridden(p, rp)),
                (Some(p), None) => Some(p),
                (None, _) => None,
            }
        },
    }
}

/// The theme name a configuration refers to, if any.
pub open spec fn configured_name(raw: RawThemeConfig) -> Option<Seq<char>> {
    match raw {
        RawThemeConfig::Named(name) => Some(name@),
        RawThemeConfig::Custom { base, .. } => match base {
            Some(n) => Some(n@),
            None => None,
        },
    }
}

/// Resolve a raw theme config into a fully constructed Theme.
///
/// - `None` → dark theme (default)
/// - `Named("dark")` / `Named("light")` → built-in theme
/// - `Named(unknown)` → error listing the themes, with `suggestion` (the
///   closest known name, when there is one)
/// - `Custom { base, palette, ui }` → base theme with overrides applied:
///   palette overrides re-derive the interface colors, and interface
///   overrides go on top of them
pub fn resolve_theme(
    raw: &Option<RawThemeConfig>,
    _themes_dirs: &[String],
    suggestion: Option<&str>,
) -> (r: Result<Theme, String>)
    ensures
        match raw {
            None => r matches Ok(t) && t.palette == dark_palette() && derived_from(t.ui, t.palette),
            Some(c) => match configured_palette(*c) {
                None => r matches Err(m) && configured_name(*c) matches Some(n) && m@
                    == unknown_theme_message(n, opt_str(suggestion)),
                Some(p) => r matches Ok(t) && t.palette == p && match c {
                    RawThemeConfig::Custom { ui: Some(ru), .. } => exists|d: UiColors|
                        derived_from(d, p) && ui_overridden(t.ui, d, *ru),
                    _ => derived_from(t.ui, p),
                },
            },
        },
{
    let raw = match raw {
        None => return Ok(Theme::dark()),
        Some(r) => r,
    };
    match raw {
        RawThemeConfig::Named(name) => resolve_named(name.as_str(), suggestion),
        RawThemeConfig::Custom { base, palette, ui } => {
            let mut theme = match base {
                Some(name) => match resolve_named(name.as_str(), suggestion) {
                    Ok(t) => t,
                    Err(e) => return Err(e),
                },
                None => Theme::dark(),
            };
            if let Some(raw_palette) = palette {
                apply_palette_overrides(&mut theme.palette, raw_palette);
                theme.ui = theme.palette.derive_ui_colors();
            }
            if let Some(raw_ui) = ui {
                let ghost before = theme.ui;
                apply_ui_overrides(&mut theme.ui, raw_ui);
                assert(derived_from(before, theme.palette));
            }
            Ok(theme)
        },
    }
}

} // verus!
