//! The computing part of the MCP tools: which lines a request covers, the
//! line records with severity and preset rendering, search matches with
//! their context, and the error texts. Opening files and indexes and writing
//! the response out is the caller's.
use super::response::{
    texts, stripped_texts, truncated_texts, line_stripped, line_truncated, strip_context_response, strip_lines_response, strip_search_response,
    truncate_context_response, truncate_lines_response, truncate_search_response, truncated_line,
    MAX_LINE_LEN, match_stripped, match_truncated,
};
use super::types::{GetContextResponse, GetLinesResponse, LineInfo, SearchMatch, SearchResponse};
use crate::ansi::ansi_stripped;
use crate::index::{severity_label, IndexReader, Severity};
use crate::reader::LogReader;
use crate::renderer::preset::{opt_segments, opt_view};
use crate::renderer::segment::{plain_text, segments_to_plain_text, SegmentStyle, StyledSegment};
use crate::renderer::{render_line_outcome, PresetRegistry};
use crate::text::{decimal, push_decimal, push_str, str_chars, string_from_chars};
use vstd::prelude::*;

verus! {

/// Rendering context passed to tool implementations for preset rendering.
pub struct RenderContext<'a> {
    pub registry: &'a PresetRegistry,
    pub renderer_names: &'a [String],
}

/// The texts of rendered segments, joined.
pub open spec fn plain_of(v: Seq<(Seq<char>, SegmentStyle)>) -> Seq<char>
    decreases v.len(),
{
    if v.len() == 0 {
        seq![]
    } else {
        plain_of(v.drop_last()) + v.last().0
    }
}

proof fn lemma_plain_text(v: Seq<StyledSegment>)
    ensures
        plain_text(v) == plain_of(crate::renderer::preset::segments_view(v)),
    decreases v.len(),
{
    if v.len() > 0 {
        lemma_plain_text(v.drop_last());
        assert(crate::renderer::preset::segments_view(v).drop_last() == crate::renderer::preset::segments_view(
            v.drop_last(),
        ));
    }
}

/// The plain text of a rendering, if there is one.
pub open spec fn rendered_text(r: Option<Seq<(Seq<char>, SegmentStyle)>>) -> Option<Seq<char>> {
    match r {
        Some(v) => Some(plain_of(v)),
        None => None,
    }
}

/// The severity name that the index gives a line.
pub open spec fn index_severity(index: Option<IndexReader>, i: int) -> Option<Seq<char>> {
    match index {
        Some(ir) => severity_label(
            if 0 <= i < ir.spec_severities().len() {
                ir.spec_severities()[i]
            } else {
                Severity::Unknown
            },
        ),
        None => None,
    }
}

/// The flag bits that the index gives a line.
pub open spec fn index_flags(index: Option<IndexReader>, i: int) -> Option<u32> {
    match index {
        Some(ir) => if 0 <= i < ir.spec_flags().len() {
            Some(ir.spec_flags()[i])
        } else {
            None
        },
        None => None,
    }
}

/// Whether `rendered` is what rendering `text` through the named presets
/// may give, as plain text.
pub open spec fn rendering_of(
    presets: Seq<crate::renderer::preset::CompiledPreset>,
    names: Seq<String>,
    text: Seq<char>,
    flags: Option<u32>,
    rendered: Option<Seq<char>>,
) -> bool {
    exists|r: Option<Seq<(Seq<char>, SegmentStyle)>>|
        #[trigger] render_line_outcome(presets, text, names, flags, r) && rendered == rendered_text(r)
}

/// Whether `after` is what a line record's rendering becomes from `before`
/// when `text` goes through the named presets: the plain text of what they
/// give, or `before` kept when none of them renders the line.
pub open spec fn rendering_update(
    presets: Seq<crate::renderer::preset::CompiledPreset>,
    names: Seq<String>,
    text: Seq<char>,
    flags: Option<u32>,
    before: Option<Seq<char>>,
    after: Option<Seq<char>>,
) -> bool {
    exists|r: Option<Seq<(Seq<char>, SegmentStyle)>>|
        #[trigger] render_line_outcome(presets, text, names, flags, r) && after == match r {
            Some(v) => Some(plain_of(v)),
            None => before,
        }
}

/// A line text as a response shows it: escape sequences removed unless raw
/// output was asked for, then cut to `MAX_LINE_LEN` bytes unless full
/// content was asked for.
pub open spec fn shown_text(t: Seq<char>, raw: bool, full: bool) -> Seq<char> {
    let s = if raw {
        t
    } else {
        ansi_stripped(t)
    };
    if full {
        s
    } else {
        truncated_line(s, MAX_LINE_LEN as int)
    }
}

/// Whether `info` is the record of line `i` with text `text`, as a response
/// shows it.
pub open spec fn shown_line(
    info: LineInfo,
    i: int,
    text: Seq<char>,
    index: Option<IndexReader>,
    presets: Seq<crate::renderer::preset::CompiledPreset>,
    names: Seq<String>,
    raw: bool,
    full: bool,
) -> bool {
    &&& info.line_number == i
    &&& info.content@ == shown_text(text, raw, full)
    &&& opt_view(info.severity) == index_severity(index, i)
    &&& exists|r: Option<Seq<(Seq<char>, SegmentStyle)>>|
        #[trigger] render_line_outcome(presets, text, names, index_flags(index, i), r) && opt_view(info.rendered)
            == match rendered_text(r) {
            Some(p) => Some(
                if full {
                    p
                } else {
                    truncated_line(p, MAX_LINE_LEN as int)
                },
            ),
            None => None,
        }
}

/// Whether `infos` are records of lines of `content` in `[lo, hi)`, in
/// increasing line order, each shown as a response shows it.
pub open spec fn shown_lines(
    infos: Seq<LineInfo>,
    lo: int,
    hi: int,
    content: Seq<Seq<char>>,
    index: Option<IndexReader>,
    presets: Seq<crate::renderer::preset::CompiledPreset>,
    names: Seq<String>,
    raw: bool,
    full: bool,
) -> bool {
    &&& forall|k: int|
        0 <= k < infos.len() ==> lo <= #[trigger] infos[k].line_number < hi && infos[k].line_number < content.len()
            && shown_line(infos[k], infos[k].line_number as int, content[infos[k].line_number as int], index, presets, names, raw, full)
    &&& forall|k: int, m: int| 0 <= k < m < infos.len() ==> #[trigger] infos[k].line_number < #[trigger] infos[m].line_number
}

/// Attempt preset rendering on a LineInfo, setting `rendered` if a preset
/// matches. Must be called before ANSI stripping since the raw content is
/// needed for field parsing.
pub fn render_line_info(line_info: &mut LineInfo, raw_content: &str, flags: Option<u32>, ctx: &RenderContext<'_>)
    ensures
        final(line_info).line_number == old(line_info).line_number,
        final(line_info).content == old(line_info).content,
        final(line_info).severity == old(line_info).severity,
        rendering_update(
            ctx.registry.presets(),
            ctx.renderer_names@,
            raw_content@,
            flags,
            opt_view(old(line_info).rendered),
            opt_view(final(line_info).rendered),
        ),
{
    if ctx.renderer_names.len() == 0 {
        proof {
            let r: Option<Seq<(Seq<char>, SegmentStyle)>> = None;
            assert(render_line_outcome(ctx.registry.presets(), raw_content@, ctx.renderer_names@, flags, r));
        }
        return;
    }
    let out = ctx.registry.render_line(raw_content, ctx.renderer_names, flags);
    match out {
        Some(segments) => {
            proof {
                lemma_plain_text(segments@);
            }
            line_info.rendered = Some(segments_to_plain_text(segments.as_slice()));
            assert(opt_view(line_info.rendered) == rendered_text(opt_segments(Some(segments))));
        },
        None => {},
    }
}

/// The record of line `i` with its content, severity and rendering.
fn build_line_info(i: usize, content: String, index: Option<&IndexReader>, ctx: &RenderContext<'_>) -> (r: LineInfo)
    ensures
        r.line_number == i,
        r.content@ == content@,
        opt_view(r.severity) == index_severity(
            match index {
                Some(ir) => Some(*ir),
                None => None,
            },
            i as int,
        ),
        rendering_of(
            ctx.registry.presets(),
            ctx.renderer_names@,
            content@,
            index_flags(
                match index {
                    Some(ir) => Some(*ir),
                    None => None,
                },
                i as int,
            ),
            opt_view(r.rendered),
        ),
{
    let flags = match index {
        Some(ir) => ir.flags(i),
        None => None,
    };
    let severity = match index {
        Some(ir) => match ir.severity(i).label() {
            Some(l) => Some(l.to_string()),
            None => None,
        },
        None => None,
    };
    let mut info = LineInfo { line_number: i, content, severity, rendered: None };
    let raw_content = info.content.clone();
    render_line_info(&mut info, raw_content.as_str(), flags, ctx);
    proof {
        let r = choose|r: Option<Seq<(Seq<char>, SegmentStyle)>>|
            #[trigger] render_line_outcome(ctx.registry.presets(), raw_content@, ctx.renderer_names@, flags, r)
                && opt_view(info.rendered) == match r {
                Some(v) => Some(plain_of(v)),
                None => None::<Seq<char>>,
            };
        assert(opt_view(info.rendered) == rendered_text(r));
    }
    info
}

pub open spec fn opt_index(index: Option<&IndexReader>) -> Option<IndexReader> {
    match index {
        Some(ir) => Some(*ir),
        None => None,
    }
}

proof fn lemma_shown_after(
    a: LineInfo,
    b: LineInfo,
    c: LineInfo,
    text: Seq<char>,
    index: Option<IndexReader>,
    presets: Seq<crate::renderer::preset::CompiledPreset>,
    names: Seq<String>,
    raw: bool,
    full: bool,
)
    requires
        shown_line(a, a.line_number as int, text, index, presets, names, true, true),
        raw ==> b == a,
        !raw ==> line_stripped(a, b),
        full ==> c == b,
        !full ==> line_truncated(b, c),
    ensures
        shown_line(c, a.line_number as int, text, index, presets, names, raw, full),
{
    let r = choose|r: Option<Seq<(Seq<char>, SegmentStyle)>>|
        #[trigger] render_line_outcome(presets, text, names, index_flags(index, a.line_number as int), r) && opt_view(
            a.rendered,
        ) == match rendered_text(r) {
            Some(p) => Some(p),
            None => None,
        };
    assert(render_line_outcome(presets, text, names, index_flags(index, a.line_number as int), r));
}

/// Records of the lines in `[lo, hi)` that the reader gives, each with its
/// severity and rendering.
fn collect_lines<R: LogReader>(
    reader: &mut R,
    lo: usize,
    hi: usize,
    index: Option<&IndexReader>,
    ctx: &RenderContext<'_>,
) -> (r: Vec<LineInfo>)
    ensures
        final(reader).content() == old(reader).content(),
        final(reader).serves_every_line() == old(reader).serves_every_line(),
        shown_lines(r@, lo as int, hi as int, old(reader).content(), opt_index(index), ctx.registry.presets(), ctx.renderer_names@, true, true),
        hi <= lo ==> r@.len() == 0,
        old(reader).serves_every_line() && lo <= hi <= old(reader).content().len() ==> r@.len() == hi - lo
            && forall|k: int| 0 <= k < r@.len() ==> #[trigger] r@[k].line_number == lo + k,
{
    let mut lines: Vec<LineInfo> = Vec::new();
    if hi <= lo {
        return lines;
    }
    let mut i: usize = lo;
    while i < hi
        invariant
            reader.content() == old(reader).content(),
            reader.serves_every_line() == old(reader).serves_every_line(),
            lo <= i <= hi,
            old(reader).serves_every_line() && hi <= old(reader).content().len() ==> lines@.len() == i - lo
                && forall|k: int| 0 <= k < lines@.len() ==> #[trigger] lines@[k].line_number == lo + k,
            shown_lines(lines@, lo as int, i as int, old(reader).content(), opt_index(index), ctx.registry.presets(), ctx.renderer_names@, true, true),
            forall|k: int| 0 <= k < lines@.len() ==> #[trigger] lines@[k].line_number < i,
        decreases hi - i,
    {
        let got = reader.get_line(i);
        match got {
            Ok(Some(content)) => {
                let info = build_line_info(i, content, index, ctx);
                let ghost before = lines@;
                lines.push(info);
                assert(shown_line(info, i as int, old(reader).content()[i as int], opt_index(index), ctx.registry.presets(), ctx.renderer_names@, true, true));
                assert(lines@ == before.push(info));
                assert forall|k: int| 0 <= k < lines@.len() implies lo <= #[trigger] lines@[k].line_number < i + 1
                    && lines@[k].line_number < old(reader).content().len() && shown_line(
                    lines@[k],
                    lines@[k].line_number as int,
                    old(reader).content()[lines@[k].line_number as int],
                    opt_index(index),
                    ctx.registry.presets(),
                    ctx.renderer_names@,
                    true,
                    true,
                ) by {
                    if k < before.len() {
                        assert(lines@[k] == before[k]);
                    }
                }
            },
            _ => {},
        }
        i = i + 1;
    }
    lines
}

proof fn lemma_shown_lines_transformed(
    a: Seq<LineInfo>,
    b: Seq<LineInfo>,
    c: Seq<LineInfo>,
    lo: int,
    hi: int,
    content: Seq<Seq<char>>,
    index: Option<IndexReader>,
    presets: Seq<crate::renderer::preset::CompiledPreset>,
    names: Seq<String>,
    raw: bool,
    full: bool,
)
    requires
        shown_lines(a, lo, hi, content, index, presets, names, true, true),
        b.len() == a.len(),
        c.len() == a.len(),
        raw ==> b == a,
        !raw ==> forall|k: int| 0 <= k < a.len() ==> line_stripped(#[trigger] a[k], b[k]),
        full ==> c == b,
        !full ==> forall|k: int| 0 <= k < a.len() ==> line_truncated(#[trigger] b[k], c[k]),
    ensures
        shown_lines(c, lo, hi, content, index, presets, names, raw, full),
{
    assert forall|k: int| 0 <= k < c.len() implies lo <= #[trigger] c[k].line_number < hi && c[k].line_number < content.len()
        && shown_line(c[k], c[k].line_number as int, content[c[k].line_number as int], index, presets, names, raw, full) by {
        assert(shown_line(a[k], a[k].line_number as int, content[a[k].line_number as int], index, presets, names, true, true));
        lemma_shown_after(a[k], b[k], c[k], content[a[k].line_number as int], index, presets, names, raw, full);
    }
    assert forall|k: int, m: int| 0 <= k < m < c.len() implies #[trigger] c[k].line_number < #[trigger] c[m].line_number by {
        assert(a[k].line_number < a[m].line_number);
    }
}

fn finish_lines(resp: &mut GetLinesResponse, raw: bool, full_content: bool)
    ensures
        final(resp).total_lines == old(resp).total_lines,
        final(resp).has_more == old(resp).has_more,
        final(resp).lines@.len() == old(resp).lines@.len(),
        forall|k: int| 0 <= k < old(resp).lines@.len() ==> #[trigger] final(resp).lines@[k].line_number == old(resp).lines@[k].line_number,
        forall|lo: int, hi: int, content: Seq<Seq<char>>, index: Option<IndexReader>, presets: Seq<crate::renderer::preset::CompiledPreset>, names: Seq<String>|
            #[trigger] shown_lines(old(resp).lines@, lo, hi, content, index, presets, names, true, true) ==> shown_lines(
                final(resp).lines@,
                lo,
                hi,
                content,
                index,
                presets,
                names,
                raw,
                full_content,
            ),
{
    let ghost a = resp.lines@;
    if !raw {
        strip_lines_response(resp);
    }
    let ghost b = resp.lines@;
    if !full_content {
        truncate_lines_response(resp);
    }
    let ghost c = resp.lines@;
    proof {
        assert forall|k: int| 0 <= k < a.len() implies #[trigger] c[k].line_number == a[k].line_number by {
            if !raw {
                assert(line_stripped(a[k], b[k]));
            }
            if !full_content {
                assert(line_truncated(b[k], c[k]));
            }
        }
        assert forall|lo: int, hi: int, content: Seq<Seq<char>>, index: Option<IndexReader>, presets: Seq<crate::renderer::preset::CompiledPreset>, names: Seq<String>|
            #[trigger] shown_lines(a, lo, hi, content, index, presets, names, true, true) implies shown_lines(
                c,
                lo,
                hi,
                content,
                index,
                presets,
                names,
                raw,
                full_content,
            ) by {
            lemma_shown_lines_transformed(a, b, c, lo, hi, content, index, presets, names, raw, full_content);
        }
    }
}

/// The number of lines a request may fetch: at most 1000.
pub open spec fn capped_count(count: usize) -> int {
    if count < 1000 {
        count as int
    } else {
        1000
    }
}

/// Lines `start..start + count` of the reader (at most 1000), as the
/// `get_lines` tool answers them.
pub fn lines_response<R: LogReader>(
    reader: &mut R,
    index: Option<&IndexReader>,
    ctx: &RenderContext<'_>,
    start: usize,
    count: usize,
    raw: bool,
    full_content: bool,
) -> (r: GetLinesResponse)
    requires
        start + capped_count(count) <= usize::MAX,
    ensures
        final(reader).content() == old(reader).content(),
        r.total_lines == old(reader).content().len(),
        r.has_more == (start + capped_count(count) < old(reader).content().len()),
        shown_lines(
            r.lines@,
            start as int,
            if start + capped_count(count) < old(reader).content().len() {
                start + capped_count(count)
            } else {
                old(reader).content().len() as int
            },
            old(reader).content(),
            opt_index(index),
            ctx.registry.presets(),
            ctx.renderer_names@,
            raw,
            full_content,
        ),
        old(reader).serves_every_line() ==> forall|k: int| 0 <= k < r.lines@.len() ==> #[trigger] r.lines@[k].line_number == start + k,
        old(reader).serves_every_line() && start <= old(reader).content().len() ==> r.lines@.len() == (if start
            + capped_count(count) < old(reader).content().len() {
            start + capped_count(count)
        } else {
            old(reader).content().len() as int
        }) - start,
{
    let count = if count < 1000 {
        count
    } else {
        1000
    };
    let total = reader.total_lines();
    let end = if start + count < total {
        start + count
    } else {
        total
    };
    let lines = collect_lines(reader, start, end, index, ctx);
    let mut response = GetLinesResponse { lines, total_lines: total, has_more: start + count < total };
    finish_lines(&mut response, raw, full_content);
    response
}

/// The line range `[start, end)` and the "more lines follow" flag of a tail
/// request: after `since` when given (at most `count` lines), else the last
/// `count` lines.
pub open spec fn tail_range(total: int, count: int, since: Option<usize>) -> (int, int, bool) {
    match since {
        Some(s) => {
            let start = if s + 1 <= usize::MAX {
                s + 1
            } else {
                usize::MAX as int
            };
            let sum = if start + count <= usize::MAX {
                start + count
            } else {
                usize::MAX as int
            };
            let end = if sum < total {
                sum
            } else {
                total
            };
            (start, end, end < total)
        },
        None => {
            let start = if total >= count {
                total - count
            } else {
                0
            };
            (start, total, start > 0)
        },
    }
}

/// The last lines of the reader, or those after `since_line`, as the
/// `get_tail` tool answers them (at most 1000).
pub fn tail_response<R: LogReader>(
    reader: &mut R,
    index: Option<&IndexReader>,
    ctx: &RenderContext<'_>,
    count: usize,
    since_line: Option<usize>,
    raw: bool,
    full_content: bool,
) -> (r: GetLinesResponse)
    ensures
        final(reader).content() == old(reader).content(),
        r.total_lines == old(reader).content().len(),
        ({
            let t = tail_range(old(reader).content().len() as int, capped_count(count), since_line);
            &&& r.has_more == t.2
            &&& shown_lines(r.lines@, t.0, t.1, old(reader).content(), opt_index(index), ctx.registry.presets(), ctx.renderer_names@, raw, full_content)
            &&& old(reader).serves_every_line() ==> {
                &&& r.lines@.len() == if t.0 <= t.1 { t.1 - t.0 } else { 0 }
                &&& forall|k: int| 0 <= k < r.lines@.len() ==> #[trigger] r.lines@[k].line_number == t.0 + k
            }
        }),
{
    let count = if count < 1000 {
        count
    } else {
        1000
    };
    let total = reader.total_lines();
    let (start, end, has_more) = match since_line {
        Some(since) => {
            let start = since.saturating_add(1);
            let sum = start.saturating_add(count);
            let end = if sum < total {
                sum
            } else {
                total
            };
            (start, end, end < total)
        },
        None => {
            let start = total.saturating_sub(count);
            (start, total, start > 0)
        },
    };
    let lines = collect_lines(reader, start, end, index, ctx);
    let mut response = GetLinesResponse { lines, total_lines: total, has_more };
    finish_lines(&mut response, raw, full_content);
    response
}

fn finish_context(resp: &mut GetContextResponse, raw: bool, full_content: bool)
    ensures
        final(resp).total_lines == old(resp).total_lines,
        final(resp).before_lines@.len() == old(resp).before_lines@.len(),
        final(resp).after_lines@.len() == old(resp).after_lines@.len(),
        forall|k: int| 0 <= k < old(resp).before_lines@.len() ==> #[trigger] final(resp).before_lines@[k].line_number
            == old(resp).before_lines@[k].line_number,
        forall|k: int| 0 <= k < old(resp).after_lines@.len() ==> #[trigger] final(resp).after_lines@[k].line_number
            == old(resp).after_lines@[k].line_number,
        forall|text: Seq<char>, index: Option<IndexReader>, presets: Seq<crate::renderer::preset::CompiledPreset>, names: Seq<String>|
            #[trigger] shown_line(old(resp).target_line, old(resp).target_line.line_number as int, text, index, presets, names, true, true)
                ==> shown_line(final(resp).target_line, old(resp).target_line.line_number as int, text, index, presets, names, raw, full_content),
        forall|lo: int, hi: int, content: Seq<Seq<char>>, index: Option<IndexReader>, presets: Seq<crate::renderer::preset::CompiledPreset>, names: Seq<String>|
            #[trigger] shown_lines(old(resp).before_lines@, lo, hi, content, index, presets, names, true, true) ==> shown_lines(
                final(resp).before_lines@,
                lo,
                hi,
                content,
                index,
                presets,
                names,
                raw,
                full_content,
            ),
        forall|lo: int, hi: int, content: Seq<Seq<char>>, index: Option<IndexReader>, presets: Seq<crate::renderer::preset::CompiledPreset>, names: Seq<String>|
            #[trigger] shown_lines(old(resp).after_lines@, lo, hi, content, index, presets, names, true, true) ==> shown_lines(
                final(resp).after_lines@,
                lo,
                hi,
                content,
                index,
                presets,
                names,
                raw,
                full_content,
            ),
{
    let ghost a = *resp;
    if !raw {
        strip_context_response(resp);
    }
    let ghost b = *resp;
    if !full_content {
        truncate_context_response(resp);
    }
    let ghost c = *resp;
    proof {
        assert forall|k: int| 0 <= k < a.before_lines@.len() implies #[trigger] c.before_lines@[k].line_number
            == a.before_lines@[k].line_number by {
            if !raw {
                assert(line_stripped(a.before_lines@[k], b.before_lines@[k]));
            }
            if !full_content {
                assert(line_truncated(b.before_lines@[k], c.before_lines@[k]));
            }
        }
        assert forall|k: int| 0 <= k < a.after_lines@.len() implies #[trigger] c.after_lines@[k].line_number
            == a.after_lines@[k].line_number by {
            if !raw {
                assert(line_stripped(a.after_lines@[k], b.after_lines@[k]));
            }
            if !full_content {
                assert(line_truncated(b.after_lines@[k], c.after_lines@[k]));
            }
        }
        assert forall|text: Seq<char>, index: Option<IndexReader>, presets: Seq<crate::renderer::preset::CompiledPreset>, names: Seq<String>|
            #[trigger] shown_line(a.target_line, a.target_line.line_number as int, text, index, presets, names, true, true)
                implies shown_line(c.target_line, a.target_line.line_number as int, text, index, presets, names, raw, full_content) by {
            lemma_shown_after(a.target_line, b.target_line, c.target_line, text, index, presets, names, raw, full_content);
        }
        assert forall|lo: int, hi: int, content: Seq<Seq<char>>, index: Option<IndexReader>, presets: Seq<crate::renderer::preset::CompiledPreset>, names: Seq<String>|
            #[trigger] shown_lines(a.before_lines@, lo, hi, content, index, presets, names, true, true) implies shown_lines(
                c.before_lines@,
                lo,
                hi,
                content,
                index,
                presets,
                names,
                raw,
                full_content,
            ) by {
            lemma_shown_lines_transformed(a.before_lines@, b.before_lines@, c.before_lines@, lo, hi, content, index, presets, names, raw, full_content);
        }
        assert forall|lo: int, hi: int, content: Seq<Seq<char>>, index: Option<IndexReader>, presets: Seq<crate::renderer::preset::CompiledPreset>, names: Seq<String>|
            #[trigger] shown_lines(a.after_lines@, lo, hi, content, index, presets, names, true, true) implies shown_lines(
                c.after_lines@,
                lo,
                hi,
                content,
                index,
                presets,
                names,
                raw,
                full_content,
            ) by {
            lemma_shown_lines_transformed(a.after_lines@, b.after_lines@, c.after_lines@, lo, hi, content, index, presets, names, raw, full_content);
        }
    }
}

/// The error text for a line past the end of the file.
pub open spec fn missing_line_text(line: nat, total: nat) -> Seq<char> {
    "Line "@ + decimal(line) + " does not exist (file has "@ + decimal(total) + " lines)"@
}

fn missing_line_error(line: usize, total: usize) -> (r: String)
    ensures
        r@ == missing_line_text(line as nat, total as nat),
{
    let mut m = str_chars("Line ");
    push_decimal(&mut m, line as u128);
    push_str(&mut m, " does not exist (file has ");
    push_decimal(&mut m, total as u128);
    push_str(&mut m, " lines)");
    string_from_chars(m.as_slice())
}

/// Lines around a target line (at most 50 on each side), as the
/// `get_context` tool answers them: an error for a line past the end, or
/// for a target line that cannot be read.
pub fn context_response<R: LogReader>(
    reader: &mut R,
    index: Option<&IndexReader>,
    ctx: &RenderContext<'_>,
    line_number: usize,
    before: usize,
    after: usize,
    raw: bool,
    full_content: bool,
) -> (r: Result<GetContextResponse, String>)
    ensures
        final(reader).content() == old(reader).content(),
        old(reader).serves_every_line() && line_number < old(reader).content().len() ==> r is Ok,
        line_number >= old(reader).content().len() ==> (r matches Err(m) && m@ == missing_line_text(
            line_number as nat,
            old(reader).content().len(),
        )),
        line_number < old(reader).content().len() ==> (r matches Err(m) ==> m@ == "Failed to read target line"@),
        r matches Ok(resp) ==> ({
            let content = old(reader).content();
            let total = content.len() as int;
            let b = if before < 50 { before as int } else { 50 };
            let a = if after < 50 { after as int } else { 50 };
            let presets = ctx.registry.presets();
            let names = ctx.renderer_names@;
            &&& line_number < total
            &&& resp.total_lines == total
            &&& shown_line(resp.target_line, line_number as int, content[line_number as int], opt_index(index), presets, names, raw, full_content)
            &&& shown_lines(resp.before_lines@, if line_number >= b { line_number - b } else { 0 }, line_number as int, content, opt_index(index), presets, names, raw, full_content)
            &&& shown_lines(resp.after_lines@, line_number + 1, if line_number + 1 + a < total { line_number + 1 + a } else { total }, content, opt_index(index), presets, names, raw, full_content)
            &&& old(reader).serves_every_line() ==> {
                &&& resp.before_lines@.len() == line_number - (if line_number >= b { line_number - b } else { 0 })
                &&& forall|k: int| 0 <= k < resp.before_lines@.len() ==> #[trigger] resp.before_lines@[k].line_number
                    == (if line_number >= b { line_number - b } else { 0 }) + k
                &&& resp.after_lines@.len() == (if line_number + 1 + a < total { line_number + 1 + a } else { total }) - (line_number + 1)
                &&& forall|k: int| 0 <= k < resp.after_lines@.len() ==> #[trigger] resp.after_lines@[k].line_number
                    == line_number + 1 + k
            }
        }),
{
    let before_count = if before < 50 {
        before
    } else {
        50
    };
    let after_count = if after < 50 {
        after
    } else {
        50
    };
    let total = reader.total_lines();
    if line_number >= total {
        return Err(missing_line_error(line_number, total));
    }
    let start_before = line_number.saturating_sub(before_count);
    let before_lines = collect_lines(reader, start_before, line_number, index, ctx);
    let target_content = match reader.get_line(line_number) {
        Ok(Some(c)) => c,
        _ => return Err("Failed to read target line".to_string()),
    };
    let target_line = build_line_info(line_number, target_content, index, ctx);
    let end_after = if after_count < total - (line_number + 1) {
        line_number + 1 + after_count
    } else {
        total
    };
    let after_lines = collect_lines(reader, line_number + 1, end_after, index, ctx);
    let mut response = GetContextResponse { before_lines, target_line, after_lines, total_lines: total };
    assert(shown_line(response.target_line, line_number as int, old(reader).content()[line_number as int], opt_index(index), ctx.registry.presets(), ctx.renderer_names@, true, true));
    let ghost resp0 = response;
    finish_context(&mut response, raw, full_content);
    proof {
        let content = old(reader).content();
        let presets = ctx.registry.presets();
        let names = ctx.renderer_names@;
        assert(shown_lines(resp0.before_lines@, start_before as int, line_number as int, content, opt_index(index), presets, names, true, true));
        assert(shown_lines(response.before_lines@, start_before as int, line_number as int, content, opt_index(index), presets, names, raw, full_content));
        assert(shown_lines(resp0.after_lines@, line_number + 1, end_after as int, content, opt_index(index), presets, names, true, true));
        assert(shown_lines(response.after_lines@, line_number + 1, end_after as int, content, opt_index(index), presets, names, raw, full_content));
        assert(shown_line(response.target_line, line_number as int, content[line_number as int], opt_index(index), presets, names, raw, full_content));
    }
    Ok(response)
}

/// What `String::from_utf8_lossy` makes of bytes: invalid sequences become
/// U+FFFD.
pub uninterp spec fn lossy_text(b: Seq<u8>) -> Seq<char>;

/// `memchr::memchr(b'\n', haystack)`: the position of the first line feed.
#[verifier::external_body]
fn memchr_newline(haystack: &[u8]) -> (r: Option<usize>)
    ensures
        match r {
            Some(i) => i < haystack@.len() && haystack@[i as int] == 10 && forall|j: int|
                0 <= j < i ==> haystack@[j] != 10,
            None => forall|j: int| 0 <= j < haystack@.len() ==> haystack@[j] != 10,
        },
{
    memchr::memchr(b'\n', haystack)
}

/// `String::from_utf8_lossy(bytes).into_owned()`: the text of the bytes
/// (named `lossy_text`), which for valid UTF-8 is its decoding.
#[verifier::external_body]
fn utf8_lossy(bytes: &[u8]) -> (r: String)
    ensures
        r@ == lossy_text(bytes@),
        vstd::utf8::valid_utf8(bytes@) ==> r@ == vstd::utf8::decode_utf8(bytes@),
{
    String::from_utf8_lossy(bytes).into_owned()
}

/// Position of the first line feed at or after `from` (the length when
/// there is none).
pub open spec fn newline_after(data: Seq<u8>, from: int) -> int
    decreases data.len() - from,
{
    if from < 0 || from >= data.len() {
        data.len() as int
    } else if data[from] == 10 {
        from
    } else {
        newline_after(data, from + 1)
    }
}

/// Where line `k` of the bytes starts; past the end (`len + 1`) when the
/// text before it ends without a line feed.
pub open spec fn line_start(data: Seq<u8>, k: nat) -> int
    decreases k,
{
    if k == 0 {
        0
    } else {
        let p = line_start(data, (k - 1) as nat);
        if p >= data.len() {
            data.len() + 1int
        } else {
            newline_after(data, p) + 1
        }
    }
}

/// Whether the bytes have a line `k`: each line feed ends a line, and text
/// after the last line feed is a last line.
pub open spec fn line_exists(data: Seq<u8>, k: int) -> bool {
    k >= 0 && line_start(data, k as nat) < data.len()
}

/// The text of line `k` (without its line feed).
pub open spec fn line_text_at(data: Seq<u8>, k: int) -> Seq<char> {
    let s = line_start(data, k as nat);
    lossy_text(data.subrange(s, newline_after(data, s)))
}

/// The texts of the existing lines in `[lo, hi)`, in order.
pub open spec fn context_texts(data: Seq<u8>, lo: int, hi: int) -> Seq<Seq<char>>
    decreases hi - lo,
{
    if hi <= lo {
        seq![]
    } else if line_exists(data, hi - 1) {
        context_texts(data, lo, hi - 1).push(line_text_at(data, hi - 1))
    } else {
        context_texts(data, lo, hi - 1)
    }
}

/// Whether `m` is the match record of line `k` with `c` lines of context on
/// each side (a line past the end has empty content).
pub open spec fn match_of(m: SearchMatch, data: Seq<u8>, k: int, c: int) -> bool {
    &&& m.line_number == k
    &&& m.content@ == if line_exists(data, k) {
        line_text_at(data, k)
    } else {
        Seq::<char>::empty()
    }
    &&& texts(m.before@) == context_texts(data, if k >= c { k - c } else { 0 }, k)
    &&& texts(m.after@) == context_texts(data, k + 1, k + c + 1)
}

pub(crate) proof fn lemma_newline_after_range(data: Seq<u8>, from: int)
    requires
        0 <= from,
    ensures
        from <= data.len() ==> from <= newline_after(data, from) <= data.len(),
        newline_after(data, from) < data.len() ==> data[newline_after(data, from)] == 10,
        forall|j: int| from <= j < newline_after(data, from) ==> data[j] != 10,
    decreases data.len() - from,
{
    if from < data.len() && data[from] != 10 {
        lemma_newline_after_range(data, from + 1);
    }
}

pub(crate) proof fn lemma_line_start_monotone(data: Seq<u8>, k: nat, m: nat)
    requires
        k <= m,
        line_start(data, k) >= data.len(),
    ensures
        line_start(data, m) >= data.len(),
    decreases m - k,
{
    if k < m {
        lemma_line_start_monotone(data, k, (m - 1) as nat);
    }
}

pub(crate) fn newline_from(data: &[u8], from: usize) -> (r: usize)
    requires
        from <= data@.len(),
    ensures
        r == newline_after(data@, from as int),
{
    let hay = vstd::slice::slice_subrange(data, from, data.len());
    proof {
        lemma_newline_after_range(data@, from as int);
    }
    match memchr_newline(hay) {
        Some(i) => {
            assert(hay@[i as int] == data@[from + i]);
            assert forall|j: int| from <= j < from + i implies data@[j] != 10 by {
                assert(hay@[j - from] == data@[j]);
            }
            proof {
                lemma_newline_pinned(data@, from as int, from + i);
            }
            from + i
        },
        None => {
            assert forall|j: int| from <= j < data@.len() implies data@[j] != 10 by {
                assert(hay@[j - from] == data@[j]);
            }
            proof {
                lemma_newline_pinned(data@, from as int, data@.len() as int);
            }
            data.len()
        },
    }
}

pub(crate) proof fn lemma_newline_pinned(data: Seq<u8>, from: int, p: int)
    requires
        0 <= from <= p <= data.len(),
        p < data.len() ==> data[p] == 10,
        forall|j: int| from <= j < p ==> data[j] != 10,
    ensures
        newline_after(data, from) == p,
    decreases p - from,
{
    if from < p {
        lemma_newline_pinned(data, from + 1, p);
    }
}

/// The existing lines among `[lo, hi)` from the scanned line bounds, as
/// text.
fn context_from_scan(
    data: &[u8],
    starts: &Vec<usize>,
    ends: &Vec<usize>,
    lo: usize,
    hi: usize,
) -> (r: Vec<String>)
    requires
        starts@.len() == ends@.len(),
        forall|m: int|
            0 <= m < starts@.len() ==> #[trigger] starts@[m] == line_start(data@, m as nat) && starts@[m]
                < data@.len() && ends@[m] == newline_after(data@, starts@[m] as int),
        forall|m: int| starts@.len() <= m < hi ==> !line_exists(data@, m),
    ensures
        texts(r@) == context_texts(data@, lo as int, hi as int),
{
    let mut out: Vec<String> = Vec::new();
    if hi <= lo {
        assert(texts(out@) =~= Seq::<Seq<char>>::empty());
        return out;
    }
    let mut i: usize = lo;
    assert(texts(out@) =~= Seq::<Seq<char>>::empty());
    while i < hi
        invariant
            lo <= i <= hi,
            starts@.len() == ends@.len(),
            forall|m: int|
                0 <= m < starts@.len() ==> #[trigger] starts@[m] == line_start(data@, m as nat) && starts@[m]
                    < data@.len() && ends@[m] == newline_after(data@, starts@[m] as int),
            forall|m: int| starts@.len() <= m < hi ==> !line_exists(data@, m),
            texts(out@) == context_texts(data@, lo as int, i as int),
        decreases hi - i,
    {
        if i < starts.len() {
            proof {
                lemma_newline_after_range(data@, starts@[i as int] as int);
            }
            let seg = vstd::slice::slice_subrange(data, starts[i], ends[i]);
            let t = utf8_lossy(seg);
            let ghost before = texts(out@);
            out.push(t);
            assert(texts(out@) =~= before.push(line_text_at(data@, i as int)));
        }
        i = i + 1;
    }
    out
}

/// The match records of the given lines, each with `context_lines` lines
/// before and after, read from the bytes of a log file in one pass.
pub fn lines_content(data: &[u8], line_indices: &[usize], context_lines: usize) -> (r: Vec<SearchMatch>)
    requires
        forall|j: int| 0 <= j < line_indices@.len() ==> #[trigger] line_indices@[j] + context_lines + 1 <= usize::MAX,
    ensures
        r@.len() == line_indices@.len(),
        forall|j: int|
            0 <= j < line_indices@.len() ==> match_of(#[trigger] r@[j], data@, line_indices@[j] as int, context_lines as int),
{
    let mut result: Vec<SearchMatch> = Vec::new();
    if line_indices.len() == 0 {
        return result;
    }
    let mut max_needed: usize = 0;
    let mut q: usize = 0;
    while q < line_indices.len()
        invariant
            q <= line_indices@.len(),
            forall|j: int| 0 <= j < line_indices@.len() ==> #[trigger] line_indices@[j] + context_lines + 1 <= usize::MAX,
            forall|j: int| 0 <= j < q ==> #[trigger] line_indices@[j] + context_lines <= max_needed,
            max_needed + 1 <= usize::MAX,
        decreases line_indices@.len() - q,
    {
        let top = line_indices[q] + context_lines;
        if top > max_needed {
            max_needed = top;
        }
        q = q + 1;
    }
    let mut starts: Vec<usize> = Vec::new();
    let mut ends: Vec<usize> = Vec::new();
    let mut pos: usize = 0;
    while starts.len() <= max_needed && pos < data.len()
        invariant
            starts@.len() == ends@.len(),
            starts@.len() <= max_needed + 1,
            pos <= data@.len(),
            line_start(data@, starts@.len() as nat) == pos || (pos == data@.len() && line_start(
                data@,
                starts@.len() as nat,
            ) == data@.len() + 1),
            forall|m: int|
                0 <= m < starts@.len() ==> #[trigger] starts@[m] == line_start(data@, m as nat) && starts@[m]
                    < data@.len() && ends@[m] == newline_after(data@, starts@[m] as int),
        decreases data@.len() - pos,
    {
        let end = newline_from(data, pos);
        proof {
            lemma_newline_after_range(data@, pos as int);
        }
        let ghost j = starts@.len();
        starts.push(pos);
        ends.push(end);
        if end < data.len() {
            pos = end + 1;
        } else {
            pos = data.len();
        }
        assert(line_start(data@, (j + 1) as nat) == newline_after(data@, line_start(data@, j as nat)) + 1);
    }
    proof {
        if starts@.len() <= max_needed {
            assert(line_start(data@, starts@.len() as nat) >= data@.len());
            assert forall|m: int| starts@.len() <= m implies !line_exists(data@, m) by {
                lemma_line_start_monotone(data@, starts@.len() as nat, m as nat);
            }
        }
    }
    let mut j: usize = 0;
    while j < line_indices.len()
        invariant
            j <= line_indices@.len(),
            result@.len() == j,
            starts@.len() == ends@.len(),
            forall|m: int|
                0 <= m < starts@.len() ==> #[trigger] starts@[m] == line_start(data@, m as nat) && starts@[m]
                    < data@.len() && ends@[m] == newline_after(data@, starts@[m] as int),
            starts@.len() <= max_needed ==> forall|m: int| starts@.len() <= m ==> !line_exists(data@, m),
            forall|q: int| 0 <= q < line_indices@.len() ==> #[trigger] line_indices@[q] + context_lines <= max_needed,
            forall|q: int| 0 <= q < line_indices@.len() ==> #[trigger] line_indices@[q] + context_lines + 1 <= usize::MAX,
            forall|q: int|
                0 <= q < j ==> match_of(#[trigger] result@[q], data@, line_indices@[q] as int, context_lines as int),
        decreases line_indices@.len() - j,
    {
        let k = line_indices[j];
        assert(k + context_lines <= max_needed);
        let content = if k < starts.len() {
            proof {
                lemma_newline_after_range(data@, starts@[k as int] as int);
            }
            let seg = vstd::slice::slice_subrange(data, starts[k], ends[k]);
            utf8_lossy(seg)
        } else {
            String::new()
        };
        let before = context_from_scan(data, &starts, &ends, k.saturating_sub(context_lines), k);
        let after = context_from_scan(data, &starts, &ends, k + 1, k + context_lines + 1);
        result.push(SearchMatch { line_number: k, content, before, after });
        j = j + 1;
    }
    result
}

/// The texts shown for context lines.
pub open spec fn shown_texts(t: Seq<Seq<char>>, raw: bool, full: bool) -> Seq<Seq<char>> {
    t.map_values(|x: Seq<char>| shown_text(x, raw, full))
}

/// Whether `m` is the match record of line `k`, as a search response shows
/// it.
pub open spec fn shown_match(m: SearchMatch, data: Seq<u8>, k: int, c: int, raw: bool, full: bool) -> bool {
    &&& m.line_number == k
    &&& m.content@ == shown_text(
        if line_exists(data, k) {
            line_text_at(data, k)
        } else {
            Seq::<char>::empty()
        },
        raw,
        full,
    )
    &&& texts(m.before@) == shown_texts(context_texts(data, if k >= c { k - c } else { 0 }, k), raw, full)
    &&& texts(m.after@) == shown_texts(context_texts(data, k + 1, k + c + 1), raw, full)
}

proof fn lemma_match_shown(a: SearchMatch, b: SearchMatch, c: SearchMatch, data: Seq<u8>, k: int, n: int, raw: bool, full: bool)
    requires
        match_of(a, data, k, n),
        raw ==> b == a,
        !raw ==> match_stripped(a, b),
        full ==> c == b,
        !full ==> match_truncated(b, c),
    ensures
        shown_match(c, data, k, n, raw, full),
{
    let lo = if k >= n { k - n } else { 0 };
    lemma_texts_shown(a.before@, b.before@, c.before@, context_texts(data, lo, k), raw, full);
    lemma_texts_shown(a.after@, b.after@, c.after@, context_texts(data, k + 1, k + n + 1), raw, full);
}

proof fn lemma_texts_shown(a: Seq<String>, b: Seq<String>, c: Seq<String>, t: Seq<Seq<char>>, raw: bool, full: bool)
    requires
        texts(a) == t,
        raw ==> b == a,
        !raw ==> texts(b) == stripped_texts(a),
        full ==> c == b,
        !full ==> texts(c) == truncated_texts(b),
    ensures
        texts(c) == shown_texts(t, raw, full),
{
    assert(texts(a).len() == a.len());
    assert(texts(b).len() == b.len());
    assert(texts(c).len() == c.len());
    assert forall|i: int| 0 <= i < c.len() implies #[trigger] texts(c)[i] == shown_texts(t, raw, full)[i] by {
        assert(texts(a)[i] == a[i]@);
        assert(texts(b)[i] == b[i]@);
        assert(texts(c)[i] == c[i]@);
        if !raw {
            assert(stripped_texts(a)[i] == ansi_stripped(a[i]@));
        }
        if !full {
            assert(truncated_texts(b)[i] == truncated_line(b[i]@, MAX_LINE_LEN as int));
        }
    }
    assert(texts(c) =~= shown_texts(t, raw, full));
}

/// Assemble a search response from the matching line numbers: the total,
/// whether it was cut to `max_results`, and the first `max_results` matches
/// with their context, read from the bytes of the log file.
pub fn search_response(
    data: &[u8],
    matching_indices: Vec<usize>,
    lines_searched: usize,
    max_results: usize,
    context_lines: usize,
    raw: bool,
    full_content: bool,
) -> (r: SearchResponse)
    requires
        forall|j: int| 0 <= j < matching_indices@.len() ==> #[trigger] matching_indices@[j] + context_lines + 1 <= usize::MAX,
    ensures
        r.total_matches == matching_indices@.len(),
        r.truncated == (matching_indices@.len() > max_results),
        r.lines_searched == lines_searched,
        r.matches@.len() == if matching_indices@.len() > max_results {
            max_results as int
        } else {
            matching_indices@.len() as int
        },
        forall|j: int|
            0 <= j < r.matches@.len() ==> shown_match(
                #[trigger] r.matches@[j],
                data@,
                matching_indices@[j] as int,
                context_lines as int,
                raw,
                full_content,
            ),
{
    let mut indices = matching_indices;
    let ghost orig = indices@;
    let total_matches = indices.len();
    let truncated = total_matches > max_results;
    indices.truncate(max_results);
    let matches = lines_content(data, indices.as_slice(), context_lines);
    let mut response = SearchResponse { matches, total_matches, truncated, lines_searched };
    let ghost a = response.matches@;
    if !raw {
        strip_search_response(&mut response);
    }
    let ghost b = response.matches@;
    if !full_content {
        truncate_search_response(&mut response);
    }
    let ghost c = response.matches@;
    proof {
        assert forall|j: int| 0 <= j < c.len() implies shown_match(
            #[trigger] c[j],
            data@,
            orig[j] as int,
            context_lines as int,
            raw,
            full_content,
        ) by {
            assert(indices@[j] == orig[j]);
            assert(match_of(a[j], data@, indices@[j] as int, context_lines as int));
            if !raw {
                assert(match_stripped(a[j], b[j]));
            }
            if !full_content {
                assert(match_truncated(b[j], c[j]));
            }
            lemma_match_shown(a[j], b[j], c[j], data@, orig[j] as int, context_lines as int, raw, full_content);
        }
    }
    response
}

} // verus!
