//! The built-in presets: `json` and `logfmt`.
use super::detect::CompiledDetect;
use super::field::names_of;
use super::preset::{layout_view, layout_views, CompiledLayoutEntry, CompiledPreset, LayoutView, PresetParser, RestFormat, StyleFn};
use super::segment::SegmentStyle;
use vstd::prelude::*;

verus! {

pub open spec fn field_view(name: Seq<char>, style_fn: StyleFn, width: Option<usize>) -> LayoutView {
    LayoutView::Field { name, style_fn, width, is_rest: false, rest_format: RestFormat::KeyValue }
}

pub open spec fn rest_view() -> LayoutView {
    LayoutView::Field {
        name: "_rest"@,
        style_fn: StyleFn::Static(SegmentStyle::Dim),
        width: None,
        is_rest: true,
        rest_format: RestFormat::KeyValue,
    }
}

pub open spec fn literal_view(text: Seq<char>, style: SegmentStyle) -> LayoutView {
    LayoutView::Literal { text, style }
}

/// Layout of the `json` preset: dim timestamp, severity-styled level padded
/// to 5, message (or msg), then the remaining fields dimmed.
pub open spec fn json_layout() -> Seq<LayoutView> {
    seq![
        field_view("timestamp"@, StyleFn::Static(SegmentStyle::Dim), None),
        literal_view(" "@, SegmentStyle::Default),
        field_view("level"@, StyleFn::Severity, Some(5)),
        literal_view(" | "@, SegmentStyle::Dim),
        field_view("message"@, StyleFn::Plain, None),
        field_view("msg"@, StyleFn::Plain, None),
        literal_view(" "@, SegmentStyle::Default),
        rest_view(),
    ]
}

/// Layout of the `logfmt` preset: dim ts, severity-styled level padded to 5,
/// msg, then the remaining fields dimmed.
pub open spec fn logfmt_layout() -> Seq<LayoutView> {
    seq![
        field_view("ts"@, StyleFn::Static(SegmentStyle::Dim), None),
        literal_view(" "@, SegmentStyle::Default),
        field_view("level"@, StyleFn::Severity, Some(5)),
        literal_view(" "@, SegmentStyle::Default),
        field_view("msg"@, StyleFn::Plain, None),
        literal_view(" "@, SegmentStyle::Default),
        rest_view(),
    ]
}

/// Whether `p` is the built-in preset with the given name, parser, layout and
/// consumed fields (detected by that parser, without regex).
pub open spec fn is_builtin(
    p: CompiledPreset,
    name: Seq<char>,
    parser: PresetParser,
    layout: Seq<LayoutView>,
    consumed: Seq<Seq<char>>,
) -> bool {
    &&& p.name@ == name
    &&& p.parser == parser
    &&& p.detect matches Some(d) && d.filename_pattern is None && d.parser == Some(parser)
    &&& p.regex is None
    &&& layout_views(p.layout@) == layout
    &&& names_of(p.consumed_fields@) == consumed
}

pub open spec fn is_builtin_json(p: CompiledPreset) -> bool {
    is_builtin(p, "json"@, PresetParser::Json, json_layout(), seq!["timestamp"@, "level"@, "message"@, "msg"@])
}

pub open spec fn is_builtin_logfmt(p: CompiledPreset) -> bool {
    is_builtin(p, "logfmt"@, PresetParser::Logfmt, logfmt_layout(), seq!["ts"@, "level"@, "msg"@])
}

fn field(name: &str, style_fn: StyleFn, width: Option<usize>) -> (r: CompiledLayoutEntry)
    ensures
        layout_view(r) == field_view(name@, style_fn, width),
{
    CompiledLayoutEntry::Field {
        name: name.to_string(),
        style_fn,
        width,
        is_rest: false,
        rest_format: RestFormat::KeyValue,
    }
}

fn rest() -> (r: CompiledLayoutEntry)
    ensures
        layout_view(r) == rest_view(),
{
    CompiledLayoutEntry::Field {
        name: "_rest".to_string(),
        style_fn: StyleFn::Static(SegmentStyle::Dim),
        width: None,
        is_rest: true,
        rest_format: RestFormat::KeyValue,
    }
}

fn literal(text: &str, style: SegmentStyle) -> (r: CompiledLayoutEntry)
    ensures
        layout_view(r) == literal_view(text@, style),
{
    CompiledLayoutEntry::Literal { text: text.to_string(), style }
}

fn names(list: &[&str]) -> (r: Vec<String>)
    ensures
        names_of(r@) == list@.map_values(|s: &str| s@),
{
    let mut out: Vec<String> = Vec::new();
    let mut i: usize = 0;
    while i < list.len()
        invariant
            i <= list@.len(),
            names_of(out@) == list@.take(i as int).map_values(|s: &str| s@),
        decreases list@.len() - i,
    {
        let ghost before = names_of(out@);
        let item: &str = list[i];
        let owned = item.to_owned();
        assert(owned@ == list@[i as int]@);
        out.push(owned);
        assert(names_of(out@) =~= before.push(list@[i as int]@));
        assert(list@.take(i + 1).map_values(|s: &str| s@) =~= list@.take(i as int).map_values(|s: &str| s@).push(
            list@[i as int]@,
        ));
        i = i + 1;
        assert(names_of(out@) =~= list@.take(i as int).map_values(|s: &str| s@));
    }
    assert(list@.take(list@.len() as int) == list@);
    out
}

fn builtin_json() -> (r: CompiledPreset)
    ensures
        is_builtin_json(r),
{
    let mut layout: Vec<CompiledLayoutEntry> = Vec::new();
    layout.push(field("timestamp", StyleFn::Static(SegmentStyle::Dim), None));
    layout.push(literal(" ", SegmentStyle::Default));
    layout.push(field("level", StyleFn::Severity, Some(5)));
    layout.push(literal(" | ", SegmentStyle::Dim));
    layout.push(field("message", StyleFn::Plain, None));
    layout.push(field("msg", StyleFn::Plain, None));
    layout.push(literal(" ", SegmentStyle::Default));
    layout.push(rest());
    assert(layout_views(layout@) =~= json_layout());
    let list: [&str; 4] = ["timestamp", "level", "message", "msg"];
    let consumed_fields = names(&list);
    assert(list@.map_values(|s: &str| s@) =~= seq!["timestamp"@, "level"@, "message"@, "msg"@]);
    CompiledPreset {
        name: "json".to_string(),
        parser: PresetParser::Json,
        detect: Some(CompiledDetect { filename_pattern: None, parser: Some(PresetParser::Json) }),
        regex: None,
        layout,
        consumed_fields,
    }
}

fn builtin_logfmt() -> (r: CompiledPreset)
    ensures
        is_builtin_logfmt(r),
{
    let mut layout: Vec<CompiledLayoutEntry> = Vec::new();
    layout.push(field("ts", StyleFn::Static(SegmentStyle::Dim), None));
    layout.push(literal(" ", SegmentStyle::Default));
    layout.push(field("level", StyleFn::Severity, Some(5)));
    layout.push(literal(" ", SegmentStyle::Default));
    layout.push(field("msg", StyleFn::Plain, None));
    layout.push(literal(" ", SegmentStyle::Default));
    layout.push(rest());
    assert(layout_views(layout@) =~= logfmt_layout());
    let list: [&str; 3] = ["ts", "level", "msg"];
    let consumed_fields = names(&list);
    assert(list@.map_values(|s: &str| s@) =~= seq!["ts"@, "level"@, "msg"@]);
    CompiledPreset {
        name: "logfmt".to_string(),
        parser: PresetParser::Logfmt,
        detect: Some(CompiledDetect { filename_pattern: None, parser: Some(PresetParser::Logfmt) }),
        regex: None,
        layout,
        consumed_fields,
    }
}

/// Returns the two built-in presets: `json` and `logfmt`.
pub fn builtin_presets() -> (r: Vec<CompiledPreset>)
    ensures
        r@.len() == 2,
        is_builtin_json(r@[0]),
        is_builtin_logfmt(r@[1]),
{
    let mut v: Vec<CompiledPreset> = Vec::new();
    v.push(builtin_json());
    v.push(builtin_logfmt());
    v
}

} // verus!
