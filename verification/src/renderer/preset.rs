//! Presets: layouts that render the fields of a parsed log line as styled
//! segments, compiled from their configuration.
use super::detect::CompiledDetect;
use super::pattern::{regex_accepts, regex_error_message, regex_new, regex_pattern, PatternRegex};
use super::field::{
    extract_fields, field_value, get_field, regex_fields_of, get_rest_fields, names_of, parsed_fields, source_pairs, source_view,
    sorted_pairs, unconsumed, FieldSource, FieldSourceView, json_string_object, json_object_text,
};
use super::segment::{
    resolve_severity_style, resolve_status_code_style, severity_style, status_code_style, SegmentColor,
    SegmentStyle, StyledSegment,
};
use crate::index::flags::{FLAG_FORMAT_JSON, FLAG_FORMAT_LOGFMT};
use crate::parsing::{pairs_of, Pairs};
use crate::text::{push_str, str_chars, str_eq, string_from_chars};
use vstd::prelude::*;
use vstd::utf8::{decode_utf8, encode_utf8, is_char_boundary};

verus! {

/// Serde-deserializable YAML preset.
#[derive(Debug)]
pub struct RawPreset {
    pub name: String,
    pub detect: Option<RawDetect>,
    pub regex: Option<String>,
    pub layout: Vec<RawLayoutEntry>,
}

/// Detection rules for auto-matching.
#[derive(Debug)]
pub struct RawDetect {
    pub parser: Option<String>,
    pub filename: Option<String>,
}

/// A single layout entry from YAML.
#[derive(Debug)]
pub struct RawLayoutEntry {
    pub field: Option<String>,
    pub literal: Option<String>,
    pub style: Option<String>,
    pub width: Option<usize>,
    pub format: Option<String>,
}

/// Parser type for a preset.
#[derive(Debug, Clone, Copy, PartialEq, Eq, Structural)]
pub enum PresetParser {
    Json,
    Logfmt,
    Regex,
    Auto,
}

/// Compiled layout entry — either a field reference or a literal string.
#[derive(Debug)]
pub enum CompiledLayoutEntry {
    Field { name: String, style_fn: StyleFn, width: Option<usize>, is_rest: bool, rest_format: RestFormat },
    Literal { text: String, style: SegmentStyle },
}

/// Determines how to style a field's value.
#[derive(Debug, Clone, PartialEq, Eq)]
pub enum StyleFn {
    Plain,
    Static(SegmentStyle),
    Severity,
    StatusCode,
}

/// Format for the `_rest` pseudo-field.
#[derive(Debug, Clone, Copy, PartialEq, Eq, Structural)]
pub enum RestFormat {
    KeyValue,
    Json,
}

/// A fully compiled, ready-to-render preset. The consumed field names hold
/// no name twice.
#[derive(Debug)]
pub struct CompiledPreset {
    pub name: String,
    pub parser: PresetParser,
    pub detect: Option<CompiledDetect>,
    pub regex: Option<PatternRegex>,
    pub layout: Vec<CompiledLayoutEntry>,
    pub consumed_fields: Vec<String>,
}

/// A layout entry as the contracts read it.
pub enum LayoutView {
    Field { name: Seq<char>, style_fn: StyleFn, width: Option<usize>, is_rest: bool, rest_format: RestFormat },
    Literal { text: Seq<char>, style: SegmentStyle },
}

pub open spec fn layout_view(e: CompiledLayoutEntry) -> LayoutView {
    match e {
        CompiledLayoutEntry::Field { name, style_fn, width, is_rest, rest_format } => LayoutView::Field {
            name: name@,
            style_fn,
            width,
            is_rest,
            rest_format,
        },
        CompiledLayoutEntry::Literal { text, style } => LayoutView::Literal { text: text@, style },
    }
}

pub open spec fn layout_views(v: Seq<CompiledLayoutEntry>) -> Seq<LayoutView> {
    v.map_values(|e: CompiledLayoutEntry| layout_view(e))
}

pub open spec fn opt_view(o: Option<String>) -> Option<Seq<char>> {
    match o {
        Some(s) => Some(s@),
        None => None,
    }
}

/// The style a style name selects (unknown names and no name: default).
pub open spec fn style_of_name(style: Option<Seq<char>>) -> SegmentStyle {
    match style {
        Some(s) => if s == "dim"@ {
            SegmentStyle::Dim
        } else if s == "bold"@ {
            SegmentStyle::Bold
        } else if s == "italic"@ {
            SegmentStyle::Italic
        } else if s == "red"@ {
            SegmentStyle::Fg(SegmentColor::Red)
        } else if s == "green"@ {
            SegmentStyle::Fg(SegmentColor::Green)
        } else if s == "yellow"@ {
            SegmentStyle::Fg(SegmentColor::Yellow)
        } else if s == "blue"@ {
            SegmentStyle::Fg(SegmentColor::Blue)
        } else if s == "magenta"@ {
            SegmentStyle::Fg(SegmentColor::Magenta)
        } else if s == "cyan"@ {
            SegmentStyle::Fg(SegmentColor::Cyan)
        } else if s == "white"@ {
            SegmentStyle::Fg(SegmentColor::White)
        } else if s == "gray"@ {
            SegmentStyle::Fg(SegmentColor::Gray)
        } else {
            SegmentStyle::Default
        },
        None => SegmentStyle::Default,
    }
}

/// How a field entry's style name styles its value.
pub open spec fn style_fn_of(style: Option<Seq<char>>) -> StyleFn {
    match style {
        Some(s) => if s == "severity"@ {
            StyleFn::Severity
        } else if s == "status_code"@ || s == "statuscode"@ {
            StyleFn::StatusCode
        } else {
            StyleFn::Static(style_of_name(Some(s)))
        },
        None => StyleFn::Plain,
    }
}

/// The parser a parser name selects.
pub open spec fn parser_of_name(name: Seq<char>) -> Option<PresetParser> {
    if name == "json"@ {
        Some(PresetParser::Json)
    } else if name == "logfmt"@ {
        Some(PresetParser::Logfmt)
    } else if name == "regex"@ {
        Some(PresetParser::Regex)
    } else if name == "auto"@ {
        Some(PresetParser::Auto)
    } else {
        None
    }
}

/// The compiled form of one raw layout entry: a literal when it has one,
/// else a field when it names one, else nothing.
pub open spec fn raw_entry_layout(e: RawLayoutEntry) -> Option<LayoutView> {
    match e.literal {
        Some(l) => Some(LayoutView::Literal { text: l@, style: style_of_name(opt_view(e.style)) }),
        None => match e.field {
            Some(f) => Some(
                LayoutView::Field {
                    name: f@,
                    style_fn: style_fn_of(opt_view(e.style)),
                    width: e.width,
                    is_rest: f@ == "_rest"@,
                    rest_format: if opt_view(e.format) == Some("json"@) {
                        RestFormat::Json
                    } else {
                        RestFormat::KeyValue
                    },
                },
            ),
            None => None,
        },
    }
}

/// The compiled layout of the raw entries.
pub open spec fn compiled_layout(raws: Seq<RawLayoutEntry>) -> Seq<LayoutView>
    decreases raws.len(),
{
    if raws.len() == 0 {
        seq![]
    } else {
        match raw_entry_layout(raws.last()) {
            Some(v) => compiled_layout(raws.drop_last()).push(v),
            None => compiled_layout(raws.drop_last()),
        }
    }
}

/// The names of the fields that the layout shows by name (all but `_rest`),
/// each once, in order of first use.
pub open spec fn consumed_of(raws: Seq<RawLayoutEntry>) -> Seq<Seq<char>>
    decreases raws.len(),
{
    if raws.len() == 0 {
        seq![]
    } else {
        let before = consumed_of(raws.drop_last());
        let e = raws.last();
        match (e.literal, e.field) {
            (None, Some(f)) => if f@ != "_rest"@ && !before.contains(f@) {
                before.push(f@)
            } else {
                before
            },
            _ => before,
        }
    }
}

/// The parser name in a preset's detection rules.
pub open spec fn detect_parser_name(raw: RawPreset) -> Option<Seq<char>> {
    match raw.detect {
        Some(d) => opt_view(d.parser),
        None => None,
    }
}

/// The parser of a compiled preset: the named one, else `Regex` when the
/// preset has a regex, else `Auto`.
pub open spec fn preset_parser(raw: RawPreset) -> PresetParser {
    match detect_parser_name(raw) {
        Some(n) => match parser_of_name(n) {
            Some(p) => p,
            None => PresetParser::Auto,
        },
        None => if raw.regex is Some {
            PresetParser::Regex
        } else {
            PresetParser::Auto
        },
    }
}

/// Whether the compiled preset `p` is what `raw` compiles to.
pub open spec fn compiled_from(raw: RawPreset, p: CompiledPreset) -> bool {
    &&& p.name@ == raw.name@
    &&& p.parser == preset_parser(raw)
    &&& match (raw.detect, p.detect) {
        (Some(d), Some(c)) => opt_view(c.filename_pattern) == opt_view(d.filename) && c.parser == match opt_view(
            d.parser,
        ) {
            Some(n) => parser_of_name(n),
            None => None,
        },
        (None, None) => true,
        _ => false,
    }
    &&& regex_pattern(p.regex) == opt_view(raw.regex)
    &&& layout_views(p.layout@) == compiled_layout(raw.layout@)
    &&& names_of(p.consumed_fields@) == consumed_of(raw.layout@)
}

/// The copy of a style.
pub fn copy_style(s: &SegmentStyle) -> (r: SegmentStyle)
    ensures
        r == *s,
{
    match s {
        SegmentStyle::Default => SegmentStyle::Default,
        SegmentStyle::Dim => SegmentStyle::Dim,
        SegmentStyle::Bold => SegmentStyle::Bold,
        SegmentStyle::Italic => SegmentStyle::Italic,
        SegmentStyle::Fg(c) => SegmentStyle::Fg(copy_color(c)),
        SegmentStyle::Compound { dim, bold, italic, fg } => SegmentStyle::Compound {
            dim: *dim,
            bold: *bold,
            italic: *italic,
            fg: match fg {
                Some(c) => Some(copy_color(c)),
                None => None,
            },
        },
    }
}

fn copy_color(c: &SegmentColor) -> (r: SegmentColor)
    ensures
        r == *c,
{
    match c {
        SegmentColor::Red => SegmentColor::Red,
        SegmentColor::Green => SegmentColor::Green,
        SegmentColor::Yellow => SegmentColor::Yellow,
        SegmentColor::Blue => SegmentColor::Blue,
        SegmentColor::Magenta => SegmentColor::Magenta,
        SegmentColor::Cyan => SegmentColor::Cyan,
        SegmentColor::White => SegmentColor::White,
        SegmentColor::Gray => SegmentColor::Gray,
        SegmentColor::Palette(n) => SegmentColor::Palette(n.clone()),
    }
}

fn resolve_style_string(style: Option<&String>) -> (r: SegmentStyle)
    ensures
        r == style_of_name(
            match style {
                Some(s) => Some(s@),
                None => None,
            },
        ),
{
    match style {
        Some(s) => {
            let s = s.as_str();
            if str_eq(s, "dim") {
                SegmentStyle::Dim
            } else if str_eq(s, "bold") {
                SegmentStyle::Bold
            } else if str_eq(s, "italic") {
                SegmentStyle::Italic
            } else if str_eq(s, "red") {
                SegmentStyle::Fg(SegmentColor::Red)
            } else if str_eq(s, "green") {
                SegmentStyle::Fg(SegmentColor::Green)
            } else if str_eq(s, "yellow") {
                SegmentStyle::Fg(SegmentColor::Yellow)
            } else if str_eq(s, "blue") {
                SegmentStyle::Fg(SegmentColor::Blue)
            } else if str_eq(s, "magenta") {
                SegmentStyle::Fg(SegmentColor::Magenta)
            } else if str_eq(s, "cyan") {
                SegmentStyle::Fg(SegmentColor::Cyan)
            } else if str_eq(s, "white") {
                SegmentStyle::Fg(SegmentColor::White)
            } else if str_eq(s, "gray") {
                SegmentStyle::Fg(SegmentColor::Gray)
            } else {
                SegmentStyle::Default
            }
        },
        None => SegmentStyle::Default,
    }
}

fn parse_parser_name(name: &String) -> (r: Option<PresetParser>)
    ensures
        r == parser_of_name(name@),
{
    let n = name.as_str();
    if str_eq(n, "json") {
        Some(PresetParser::Json)
    } else if str_eq(n, "logfmt") {
        Some(PresetParser::Logfmt)
    } else if str_eq(n, "regex") {
        Some(PresetParser::Regex)
    } else if str_eq(n, "auto") {
        Some(PresetParser::Auto)
    } else {
        None
    }
}

fn contains_name(v: &Vec<String>, name: &String) -> (r: bool)
    ensures
        r == names_of(v@).contains(name@),
{
    let mut i: usize = 0;
    while i < v.len()
        invariant
            i <= v@.len(),
            forall|j: int| 0 <= j < i ==> v@[j]@ != name@,
        decreases v@.len() - i,
    {
        if str_eq(v[i].as_str(), name.as_str()) {
            assert(names_of(v@)[i as int] == name@);
            return true;
        }
        i = i + 1;
    }
    proof {
        if names_of(v@).contains(name@) {
            let j = choose|j: int| 0 <= j < names_of(v@).len() && names_of(v@)[j] == name@;
            assert(v@[j]@ == name@);
        }
    }
    false
}

/// Validates and compiles a RawPreset into a CompiledPreset.
pub fn compile(raw: RawPreset) -> (r: Result<CompiledPreset, String>)
    ensures
        match detect_parser_name(raw) {
            Some(n) => parser_of_name(n) is None ==> (r matches Err(m) && m@ == "unknown parser: "@ + n),
            None => true,
        },
        !(detect_parser_name(raw) matches Some(n) && parser_of_name(n) is None) ==> match raw.regex {
            Some(p) => !regex_accepts(p@) ==> (r matches Err(m) && m@ == "invalid regex: "@ + regex_error_message(p@)),
            None => true,
        },
        r matches Ok(p) ==> compiled_from(raw, p),
        !(detect_parser_name(raw) matches Some(n) && parser_of_name(n) is None) && !(raw.regex matches Some(p)
            && !regex_accepts(p@)) ==> r is Ok,
{
    let ghost raw0 = raw;
    let RawPreset { name, detect, regex, layout } = raw;
    let has_regex = regex.is_some();
    let parser = match &detect {
        Some(d) => match &d.parser {
            Some(p) => match parse_parser_name(p) {
                Some(parsed) => parsed,
                None => {
                    let mut m = str_chars("unknown parser: ");
                    push_str(&mut m, p.as_str());
                    return Err(string_from_chars(m.as_slice()));
                },
            },
            None => if has_regex {
                PresetParser::Regex
            } else {
                PresetParser::Auto
            },
        },
        None => if has_regex {
            PresetParser::Regex
        } else {
            PresetParser::Auto
        },
    };
    let compiled_regex = match &regex {
        Some(pattern) => match regex_new(pattern.as_str()) {
            Ok(re) => Some(re),
            Err(e) => {
                let mut m = str_chars("invalid regex: ");
                push_str(&mut m, e.as_str());
                return Err(string_from_chars(m.as_slice()));
            },
        },
        None => None,
    };
    let detect = match detect {
        Some(d) => {
            let RawDetect { parser: dp, filename } = d;
            let parser = match &dp {
                Some(p) => parse_parser_name(p),
                None => None,
            };
            Some(CompiledDetect { filename_pattern: filename, parser })
        },
        None => None,
    };
    let mut consumed_fields: Vec<String> = Vec::new();
    let mut out: Vec<CompiledLayoutEntry> = Vec::new();
    let ghost raws = layout@;
    assert(raws.take(0) =~= Seq::<RawLayoutEntry>::empty());
    assert(layout_views(out@) =~= Seq::<LayoutView>::empty());
    assert(names_of(consumed_fields@) =~= Seq::<Seq<char>>::empty());
    for entry in it: layout.into_iter()
        invariant
            it.seq() == raws,
            layout_views(out@) == compiled_layout(raws.take(it.index() as int)),
            names_of(consumed_fields@) == consumed_of(raws.take(it.index() as int)),
    {
        let ghost j = it.index() as int;
        proof {
            assert(raws.take(j + 1).drop_last() == raws.take(j));
            assert(raws.take(j + 1).last() == raws[j]);
        }
        let ghost e = entry;
        let RawLayoutEntry { field, literal, style, width, format } = entry;
        match literal {
            Some(text) => {
                let st = resolve_style_string(style.as_ref());
                let ghost before = layout_views(out@);
                out.push(CompiledLayoutEntry::Literal { text, style: st });
                assert(layout_views(out@) =~= before.push(layout_view(out@.last())));
            },
            None => match field {
                Some(f) => {
                    let is_rest = str_eq(f.as_str(), "_rest");
                    let style_fn = match &style {
                        Some(s) => {
                            if str_eq(s.as_str(), "severity") {
                                StyleFn::Severity
                            } else if str_eq(s.as_str(), "status_code") || str_eq(s.as_str(), "statuscode") {
                                StyleFn::StatusCode
                            } else {
                                StyleFn::Static(resolve_style_string(Some(s)))
                            }
                        },
                        None => StyleFn::Plain,
                    };
                    let rest_format = match &format {
                        Some(fmt) => if str_eq(fmt.as_str(), "json") {
                            RestFormat::Json
                        } else {
                            RestFormat::KeyValue
                        },
                        None => RestFormat::KeyValue,
                    };
                    proof {
                        match format {
                            Some(fmt) => {
                                assert((opt_view(format) == Some("json"@)) == (fmt@ == "json"@));
                            },
                            None => {},
                        }
                    }
                    if !is_rest && !contains_name(&consumed_fields, &f) {
                        let ghost before = names_of(consumed_fields@);
                        consumed_fields.push(f.clone());
                        assert(names_of(consumed_fields@) =~= before.push(f@));
                    }
                    let ghost before = layout_views(out@);
                    out.push(CompiledLayoutEntry::Field { name: f, style_fn, width, is_rest, rest_format });
                    assert(layout_views(out@) =~= before.push(layout_view(out@.last())));
                },
                None => {},
            },
        }
    }
    assert(raws.take(raws.len() as int) == raws);
    Ok(CompiledPreset { name, parser, detect, regex: compiled_regex, layout: out, consumed_fields })
}

/// Whether the index flags rule the line out for the preset's parser: a JSON
/// or logfmt preset needs the line to be flagged with its format.
pub open spec fn flag_rejects(parser: PresetParser, flags: Option<u32>) -> bool {
    match flags {
        Some(f) => match parser {
            PresetParser::Json => f & FLAG_FORMAT_JSON != FLAG_FORMAT_JSON,
            PresetParser::Logfmt => f & FLAG_FORMAT_LOGFMT != FLAG_FORMAT_LOGFMT,
            _ => false,
        },
        None => false,
    }
}

/// The style of a field value.
pub open spec fn styled(style_fn: StyleFn, value: Seq<char>) -> SegmentStyle {
    match style_fn {
        StyleFn::Plain => SegmentStyle::Default,
        StyleFn::Static(s) => s,
        StyleFn::Severity => severity_style(value),
        StyleFn::StatusCode => status_code_style(value),
    }
}

/// Whether fitting `value` to `width` cuts it at a character boundary (or
/// does not cut it).
pub open spec fn cut_ok(value: Seq<char>, width: Option<usize>) -> bool {
    match width {
        Some(w) => encode_utf8(value).len() > w ==> is_char_boundary(encode_utf8(value), w as int),
        None => true,
    }
}

/// A value fitted to a width: its first `width` bytes when it is longer,
/// else padded with spaces to `width` characters.
pub open spec fn fitted(value: Seq<char>, width: Option<usize>) -> Seq<char> {
    match width {
        Some(w) => if encode_utf8(value).len() > w {
            decode_utf8(encode_utf8(value).subrange(0, w as int))
        } else if value.len() < w {
            value + Seq::new((w - value.len()) as nat, |i: int| ' ')
        } else {
            value
        },
        None => value,
    }
}

/// `k=v` for each pair, separated by single spaces.
pub open spec fn key_values(rest: Pairs) -> Seq<char>
    decreases rest.len(),
{
    if rest.len() == 0 {
        seq![]
    } else if rest.len() == 1 {
        rest[0].0 + "="@ + rest[0].1
    } else {
        key_values(rest.drop_last()) + " "@ + rest.last().0 + "="@ + rest.last().1
    }
}

/// The text of the `_rest` pseudo-field.
pub open spec fn rest_text(rest: Pairs, format: RestFormat) -> Seq<char> {
    match format {
        RestFormat::KeyValue => key_values(rest),
        RestFormat::Json => json_string_object(rest),
    }
}

/// The segments one layout entry renders for the given fields.
pub open spec fn entry_segments(e: LayoutView, consumed: Seq<Seq<char>>, src: FieldSourceView) -> Seq<(Seq<char>, SegmentStyle)> {
    match e {
        LayoutView::Literal { text, style } => seq![(text, style)],
        LayoutView::Field { name, style_fn, width, is_rest, rest_format } => if is_rest {
            let rest = sorted_pairs(unconsumed(source_pairs(src), consumed));
            if rest.len() == 0 {
                seq![]
            } else {
                seq![(rest_text(rest, rest_format), styled(style_fn, rest_text(rest, rest_format)))]
            }
        } else {
            match field_value(src, name) {
                Some(v) => seq![(fitted(v, width), styled(style_fn, v))],
                None => seq![],
            }
        },
    }
}

/// The segments a layout renders for the given fields (missing fields are
/// skipped).
pub open spec fn layout_segments(layout: Seq<LayoutView>, consumed: Seq<Seq<char>>, src: FieldSourceView) -> Seq<(Seq<char>, SegmentStyle)>
    decreases layout.len(),
{
    if layout.len() == 0 {
        seq![]
    } else {
        layout_segments(layout.drop_last(), consumed, src) + entry_segments(layout.last(), consumed, src)
    }
}

/// Whether every width cut of the layout falls on a character boundary.
pub open spec fn layout_cuts_ok(layout: Seq<LayoutView>, src: FieldSourceView) -> bool {
    forall|i: int|
        0 <= i < layout.len() ==> match #[trigger] layout[i] {
            LayoutView::Field { name, width, is_rest, .. } => !is_rest ==> match field_value(src, name) {
                Some(v) => cut_ok(v, width),
                None => true,
            },
            _ => true,
        }
}

pub open spec fn segments_view(v: Seq<StyledSegment>) -> Seq<(Seq<char>, SegmentStyle)> {
    v.map_values(|s: StyledSegment| (s.text@, s.style))
}

fn resolve_style_fn(style_fn: &StyleFn, value: &String) -> (r: SegmentStyle)
    ensures
        r == styled(*style_fn, value@),
{
    match style_fn {
        StyleFn::Plain => SegmentStyle::Default,
        StyleFn::Static(s) => copy_style(s),
        StyleFn::Severity => resolve_severity_style(value.as_str()),
        StyleFn::StatusCode => resolve_status_code_style(value.as_str()),
    }
}

fn cut_fits(value: &String, width: Option<usize>) -> (r: bool)
    ensures
        r == cut_ok(value@, width),
{
    match width {
        Some(w) => {
            let v = value.as_str();
            if v.as_bytes().len() > w {
                v.is_char_boundary(w)
            } else {
                true
            }
        },
        None => true,
    }
}

fn apply_width(value: &String, width: Option<usize>) -> (r: String)
    requires
        cut_ok(value@, width),
    ensures
        r@ == fitted(value@, width),
{
    match width {
        Some(w) => {
            let v = value.as_str();
            if v.as_bytes().len() > w {
                let (head, _) = v.split_at(w);
                proof {
                    broadcast use vstd::utf8::group_utf8_lib;

                    assert(head@ == decode_utf8(encode_utf8(value@).subrange(0, w as int)));
                }
                head.to_string()
            } else {
                let mut out = str_chars(v);
                let n = out.len();
                if n < w {
                    let ghost base = out@;
                    let mut k: usize = n;
                    while k < w
                        invariant
                            n <= k <= w,
                            out@ == base + Seq::new((k - n) as nat, |i: int| ' '),
                        decreases w - k,
                    {
                        out.push(' ');
                        k = k + 1;
                        assert(out@ =~= base + Seq::new((k - n) as nat, |i: int| ' '));
                    }
                }
                string_from_chars(out.as_slice())
            }
        },
        None => value.clone(),
    }
}

fn key_values_text(rest: &Vec<(String, String)>) -> (r: String)
    ensures
        r@ == key_values(pairs_of(rest@)),
{
    let mut out: Vec<char> = Vec::new();
    let mut i: usize = 0;
    while i < rest.len()
        invariant
            i <= rest@.len(),
            out@ == key_values(pairs_of(rest@).take(i as int)),
        decreases rest@.len() - i,
    {
        let ghost p = pairs_of(rest@).take(i + 1);
        assert(p.drop_last() == pairs_of(rest@).take(i as int));
        assert(p.last() == (rest@[i as int].0@, rest@[i as int].1@));
        if i > 0 {
            push_str(&mut out, " ");
        } else {
            assert(p[0] == p.last());
        }
        push_str(&mut out, rest[i].0.as_str());
        push_str(&mut out, "=");
        push_str(&mut out, rest[i].1.as_str());
        i = i + 1;
        proof {
            if i > 1 {
                assert(out@ =~= key_values(p.drop_last()) + " "@ + p.last().0 + "="@ + p.last().1);
            } else {
                assert(out@ =~= p[0].0 + "="@ + p[0].1);
            }
        }
    }
    assert(pairs_of(rest@).take(rest@.len() as int) == pairs_of(rest@));
    string_from_chars(out.as_slice())
}

pub open spec fn opt_segments(r: Option<Vec<StyledSegment>>) -> Option<Seq<(Seq<char>, SegmentStyle)>> {
    match r {
        Some(v) => Some(segments_view(v@)),
        None => None,
    }
}

/// What rendering `line` with preset `p` may give: nothing when the index
/// flags rule the line out; for JSON, logfmt and auto parsers exactly the
/// segments of the parsed fields (nothing when the line does not parse, or
/// when a width would cut a character in two); for a regex parser the same
/// with the fields of the regex's match (nothing without a regex or a
/// match).
pub open spec fn render_outcome(
    p: CompiledPreset,
    line: Seq<char>,
    flags: Option<u32>,
    r: Option<Seq<(Seq<char>, SegmentStyle)>>,
) -> bool {
    &&& flag_rejects(p.parser, flags) ==> r is None
    &&& !flag_rejects(p.parser, flags) && p.parser != PresetParser::Regex ==> match parsed_fields(
        line,
        p.parser,
        flags,
    ) {
        Some(src) => if layout_cuts_ok(layout_views(p.layout@), src) {
            r == Some(layout_segments(layout_views(p.layout@), names_of(p.consumed_fields@), src))
        } else {
            r is None
        },
        None => r is None,
    }
    &&& p.parser == PresetParser::Regex ==> match regex_fields_of(regex_pattern(p.regex), line) {
        Some(src) => if layout_cuts_ok(layout_views(p.layout@), src) {
            r == Some(layout_segments(layout_views(p.layout@), names_of(p.consumed_fields@), src))
        } else {
            r is None
        },
        None => r is None,
    }
}

impl CompiledPreset {
    /// Returns `(mask, want)` for early reject via index flags.
    pub fn index_filter(&self) -> (r: Option<(u32, u32)>)
        ensures
            r == match self.parser {
                PresetParser::Json => Some((FLAG_FORMAT_JSON, FLAG_FORMAT_JSON)),
                PresetParser::Logfmt => Some((FLAG_FORMAT_LOGFMT, FLAG_FORMAT_LOGFMT)),
                _ => None::<(u32, u32)>,
            },
    {
        match self.parser {
            PresetParser::Json => Some((FLAG_FORMAT_JSON, FLAG_FORMAT_JSON)),
            PresetParser::Logfmt => Some((FLAG_FORMAT_LOGFMT, FLAG_FORMAT_LOGFMT)),
            PresetParser::Regex | PresetParser::Auto => None,
        }
    }

    /// Whether every width cut of the layout falls on a character boundary
    /// of the field it cuts.
    pub fn cuts_fit(&self, source: &FieldSource) -> (r: bool)
        ensures
            r == layout_cuts_ok(layout_views(self.layout@), source_view(*source)),
    {
        let ghost l = layout_views(self.layout@);
        let mut i: usize = 0;
        while i < self.layout.len()
            invariant
                l == layout_views(self.layout@),
                i <= self.layout@.len(),
                forall|j: int|
                    0 <= j < i ==> match #[trigger] l[j] {
                        LayoutView::Field { name, width, is_rest, .. } => !is_rest ==> match field_value(
                            source_view(*source),
                            name,
                        ) {
                            Some(v) => cut_ok(v, width),
                            None => true,
                        },
                        _ => true,
                    },
            decreases self.layout@.len() - i,
        {
            match &self.layout[i] {
                CompiledLayoutEntry::Field { name, width, is_rest, .. } => {
                    if !*is_rest {
                        match get_field(source, name.as_str()) {
                            Some(v) => {
                                if !cut_fits(&v, *width) {
                                    assert(!match l[i as int] {
                                        LayoutView::Field { name, width, is_rest, .. } => !is_rest ==> match field_value(
                                            source_view(*source),
                                            name,
                                        ) {
                                            Some(v) => cut_ok(v, width),
                                            None => true,
                                        },
                                        _ => true,
                                    });
                                    return false;
                                }
                            },
                            None => {},
                        }
                    }
                },
                CompiledLayoutEntry::Literal { .. } => {},
            }
            i = i + 1;
        }
        true
    }

    /// The segments the layout renders for the given fields.
    pub fn render_fields(&self, source: &FieldSource) -> (r: Vec<StyledSegment>)
        requires
            layout_cuts_ok(layout_views(self.layout@), source_view(*source)),
        ensures
            segments_view(r@) == layout_segments(
                layout_views(self.layout@),
                names_of(self.consumed_fields@),
                source_view(*source),
            ),
    {
        let ghost l = layout_views(self.layout@);
        let ghost c = names_of(self.consumed_fields@);
        let ghost src = source_view(*source);
        let mut segments: Vec<StyledSegment> = Vec::new();
        let mut i: usize = 0;
        assert(l.take(0) =~= Seq::<LayoutView>::empty());
        assert(segments_view(segments@) =~= Seq::<(Seq<char>, SegmentStyle)>::empty());
        while i < self.layout.len()
            invariant
                l == layout_views(self.layout@),
                c == names_of(self.consumed_fields@),
                src == source_view(*source),
                layout_cuts_ok(l, src),
                i <= self.layout@.len(),
                segments_view(segments@) == layout_segments(l.take(i as int), c, src),
            decreases self.layout@.len() - i,
        {
            let ghost before = segments_view(segments@);
            assert(l.take(i + 1).drop_last() == l.take(i as int));
            assert(l.take(i + 1).last() == l[i as int]);
            match &self.layout[i] {
                CompiledLayoutEntry::Literal { text, style } => {
                    segments.push(StyledSegment { text: text.clone(), style: copy_style(style) });
                    assert(segments_view(segments@) =~= before + entry_segments(l[i as int], c, src));
                },
                CompiledLayoutEntry::Field { name, style_fn, width, is_rest, rest_format } => {
                    if *is_rest {
                        let rest = get_rest_fields(source, &self.consumed_fields);
                        if rest.len() > 0 {
                            let text = match rest_format {
                                RestFormat::KeyValue => key_values_text(&rest),
                                RestFormat::Json => json_object_text(&rest),
                            };
                            let style = resolve_style_fn(style_fn, &text);
                            segments.push(StyledSegment { text, style });
                            assert(segments_view(segments@) =~= before + entry_segments(l[i as int], c, src));
                        } else {
                            assert(segments_view(segments@) =~= before + entry_segments(l[i as int], c, src));
                        }
                    } else {
                        match get_field(source, name.as_str()) {
                            Some(value) => {
                                assert(match l[i as int] {
                                    LayoutView::Field { name, width, is_rest, .. } => !is_rest ==> match field_value(
                                        src,
                                        name,
                                    ) {
                                        Some(v) => cut_ok(v, width),
                                        None => true,
                                    },
                                    _ => true,
                                });
                                let formatted = apply_width(&value, *width);
                                let style = resolve_style_fn(style_fn, &value);
                                segments.push(StyledSegment { text: formatted, style });
                                assert(segments_view(segments@) =~= before + entry_segments(l[i as int], c, src));
                            },
                            None => {
                                assert(segments_view(segments@) =~= before + entry_segments(l[i as int], c, src));
                            },
                        }
                    }
                },
            }
            i = i + 1;
        }
        assert(l.take(self.layout@.len() as int) == l);
        segments
    }

    /// Main render function. Returns `None` if the line doesn't match the
    /// preset, and also where fitting a field to its width would cut a
    /// character in two.
    pub fn render(&self, line: &str, flags: Option<u32>) -> (r: Option<Vec<StyledSegment>>)
        ensures
            render_outcome(*self, line@, flags, opt_segments(r)),
    {
        match (flags, self.index_filter()) {
            (Some(f), Some((mask, want))) => {
                if f & mask != want {
                    return None;
                }
            },
            _ => {},
        }
        let source = match extract_fields(line, &self.parser, self.regex.as_ref(), flags) {
            Some(s) => s,
            None => return None,
        };
        if !self.cuts_fit(&source) {
            return None;
        }
        Some(self.render_fields(&source))
    }
}

/// The parser names: `json`, `logfmt`, `regex` and `auto` name the parser
/// of the same name, and no other text names a parser.
pub proof fn lemma_parser_names(name: Seq<char>)
    ensures
        parser_of_name(seq!['j', 's', 'o', 'n']) == Some(PresetParser::Json),
        parser_of_name(seq!['l', 'o', 'g', 'f', 'm', 't']) == Some(PresetParser::Logfmt),
        parser_of_name(seq!['r', 'e', 'g', 'e', 'x']) == Some(PresetParser::Regex),
        parser_of_name(seq!['a', 'u', 't', 'o']) == Some(PresetParser::Auto),
        parser_of_name(name) is Some <==> (name == seq!['j', 's', 'o', 'n'] || name == seq!['l', 'o', 'g', 'f', 'm', 't']
            || name == seq!['r', 'e', 'g', 'e', 'x'] || name == seq!['a', 'u', 't', 'o']),
{
    reveal_strlit("json");
    reveal_strlit("logfmt");
    reveal_strlit("regex");
    reveal_strlit("auto");
    assert("json"@ =~= seq!['j', 's', 'o', 'n']);
    assert("logfmt"@ =~= seq!['l', 'o', 'g', 'f', 'm', 't']);
    assert("regex"@ =~= seq!['r', 'e', 'g', 'e', 'x']);
    assert("auto"@ =~= seq!['a', 'u', 't', 'o']);
}

/// A compiled preset whose detection rules name a parser uses that parser,
/// for its own lines and in its detection rules: `json`, `logfmt`, `regex`
/// or `auto`.
pub proof fn lemma_compiled_parser(raw: RawPreset, p: CompiledPreset)
    requires
        compiled_from(raw, p),
    ensures
        detect_parser_name(raw) == Some(seq!['j', 's', 'o', 'n']) ==> p.parser == PresetParser::Json,
        detect_parser_name(raw) == Some(seq!['l', 'o', 'g', 'f', 'm', 't']) ==> p.parser == PresetParser::Logfmt,
        detect_parser_name(raw) == Some(seq!['r', 'e', 'g', 'e', 'x']) ==> p.parser == PresetParser::Regex,
        detect_parser_name(raw) == Some(seq!['a', 'u', 't', 'o']) ==> p.parser == PresetParser::Auto,
        (detect_parser_name(raw) matches Some(n) && parser_of_name(n) is Some) ==> (p.detect matches Some(d)
            && d.parser == Some(p.parser)),
        detect_parser_name(raw) is None ==> p.parser == (if raw.regex is Some {
            PresetParser::Regex
        } else {
            PresetParser::Auto
        }),
{
    match detect_parser_name(raw) {
        Some(n) => lemma_parser_names(n),
        None => {},
    }
}

} // verus!
