//! Response post-processing: ANSI stripping, truncation of long lines,
//! collection of search progress, timestamps.
use super::types::{GetContextResponse, GetLinesResponse, LineInfo, SearchMatch, SearchResponse};
use crate::ansi::{ansi_stripped, strip_ansi};
use crate::renderer::format::{
    civil_components, datetime_text, days_in_month, tz_offset_secs, epoch_of_date, epoch_secs_to_components, iso8601_secs,
    lemma_calendar_round_trip, lemma_civil_ranges, lemma_date_round_trip, DateTimeMode,
};
use crate::text::{
    all_digits, ascii_bytes, decimal, is_whitespace, lemma_padded_reads_back, padded, pow10, push_decimal,
    push_padded, push_str, str_chars, string_from_chars, field_i64, trim_end_ws, trim_start_ws, trim_ws,
};
use std::borrow::Cow;
use vstd::prelude::*;
use vstd::string::StringSliceAdditionalSpecFns;
use vstd::utf8::{decode_utf8, encode_utf8, is_char_boundary};

verus! {

/// Maximum characters per line in MCP output. Lines exceeding this are truncated
/// with a suffix showing the number of hidden characters. Full content is available
/// via narrower `get_context` or `get_lines` calls.
pub const MAX_LINE_LEN: usize = 500;

/// `str::floor_char_boundary`: the largest character boundary of the UTF-8
/// bytes `b` at or below `m` (`b.len()` when `m` is past the end).
pub open spec fn floor_char_boundary(b: Seq<u8>, m: int) -> int
    decreases m,
{
    if m <= 0 {
        0
    } else if m >= b.len() {
        b.len() as int
    } else if is_char_boundary(b, m) {
        m
    } else {
        floor_char_boundary(b, m - 1)
    }
}

/// A line cut to at most `max_len` bytes at a character boundary, followed by
/// `…[+N chars]` where `N` is the number of bytes cut off; unchanged when it
/// is no longer than `max_len` bytes.
pub open spec fn truncated_line(line: Seq<char>, max_len: int) -> Seq<char> {
    let b = encode_utf8(line);
    if b.len() <= max_len {
        line
    } else {
        let end = floor_char_boundary(b, max_len);
        decode_utf8(b.subrange(0, end)) + "…[+"@ + decimal((b.len() - end) as nat) + " chars]"@
    }
}

proof fn lemma_floor_char_boundary(b: Seq<u8>, m: int)
    requires
        vstd::utf8::valid_utf8(b),
    ensures
        0 <= floor_char_boundary(b, m) <= b.len(),
        m >= 0 ==> floor_char_boundary(b, m) <= m,
        is_char_boundary(b, floor_char_boundary(b, m)),
    decreases m,
{
    vstd::utf8::is_char_boundary_start_end_of_seq(b);
    if m > 0 && m < b.len() && !is_char_boundary(b, m) {
        lemma_floor_char_boundary(b, m - 1);
    }
}

/// The truncated text of a line longer than `max_len` bytes.
fn truncated_text(line: &str, max_len: usize) -> (r: String)
    requires
        line.spec_bytes().len() > max_len,
    ensures
        r@ == truncated_line(line@, max_len as int),
{
    let ghost b = line.spec_bytes();
    proof {
        vstd::utf8::encode_utf8_valid_utf8(line@);
        lemma_floor_char_boundary(b, max_len as int);
    }
    let n = line.as_bytes().len();
    let mut end = max_len;
    while end > 0 && !line.is_char_boundary(end)
        invariant
            b == line.spec_bytes(),
            vstd::utf8::valid_utf8(b),
            n == b.len(),
            end <= max_len < n,
            floor_char_boundary(b, end as int) == floor_char_boundary(b, max_len as int),
        decreases end,
    {
        end = end - 1;
    }
    proof {
        vstd::utf8::is_char_boundary_start_end_of_seq(b);
    }
    let (head, _) = line.split_at(end);
    proof {
        broadcast use vstd::utf8::group_utf8_lib;

        assert(head@ == decode_utf8(b.subrange(0, end as int)));
    }
    let mut out = str_chars(head);
    push_str(&mut out, "…[+");
    push_decimal(&mut out, (n - end) as u128);
    push_str(&mut out, " chars]");
    string_from_chars(out.as_slice())
}

/// Truncate a single line to `max_len` bytes, appending a suffix if truncated.
pub fn truncate_line(line: &str, max_len: usize) -> (r: Cow<'_, str>)
    ensures
        r@ == truncated_line(line@, max_len as int),
        line.spec_bytes().len() <= max_len <==> r is Borrowed,
{
    if line.as_bytes().len() <= max_len {
        Cow::Borrowed(line)
    } else {
        Cow::Owned(truncated_text(line, max_len))
    }
}

/// `s` truncated to `MAX_LINE_LEN` bytes.
fn truncated_string(s: String) -> (r: String)
    ensures
        r@ == truncated_line(s@, MAX_LINE_LEN as int),
{
    if s.as_str().as_bytes().len() <= MAX_LINE_LEN {
        s
    } else {
        truncated_text(s.as_str(), MAX_LINE_LEN)
    }
}

/// The character views of a list of strings.
pub open spec fn texts(v: Seq<String>) -> Seq<Seq<char>> {
    v.map_values(|s: String| s@)
}

/// Each text of `v` truncated to `MAX_LINE_LEN` bytes.
pub open spec fn truncated_texts(v: Seq<String>) -> Seq<Seq<char>> {
    v.map_values(|s: String| truncated_line(s@, MAX_LINE_LEN as int))
}

/// Each text of `v` with escape sequences removed.
pub open spec fn stripped_texts(v: Seq<String>) -> Seq<Seq<char>> {
    v.map_values(|s: String| ansi_stripped(s@))
}

fn truncate_strings(v: Vec<String>) -> (r: Vec<String>)
    ensures
        texts(r@) == truncated_texts(v@),
{
    let ghost orig = v@;
    let mut out: Vec<String> = Vec::new();
    for s in it: v.into_iter()
        invariant
            it.seq() == orig,
            out@.len() == it.index(),
            forall|j: int| 0 <= j < out@.len() ==> out@[j]@ == truncated_line(orig[j]@, MAX_LINE_LEN as int),
    {
        out.push(truncated_string(s));
    }
    assert(texts(out@) =~= truncated_texts(orig));
    out
}

fn strip_strings(v: Vec<String>) -> (r: Vec<String>)
    ensures
        texts(r@) == stripped_texts(v@),
{
    let ghost orig = v@;
    let mut out: Vec<String> = Vec::new();
    for s in it: v.into_iter()
        invariant
            it.seq() == orig,
            out@.len() == it.index(),
            forall|j: int| 0 <= j < out@.len() ==> out@[j]@ == ansi_stripped(orig[j]@),
    {
        out.push(strip_ansi(s.as_str()));
    }
    assert(texts(out@) =~= stripped_texts(orig));
    out
}

/// `new` is `old` with its content, and its rendered text where there is
/// one, truncated to `MAX_LINE_LEN` bytes.
pub open spec fn line_truncated(old: LineInfo, new: LineInfo) -> bool {
    &&& new.line_number == old.line_number
    &&& new.severity == old.severity
    &&& new.content@ == truncated_line(old.content@, MAX_LINE_LEN as int)
    &&& match (old.rendered, new.rendered) {
        (Some(a), Some(b)) => b@ == truncated_line(a@, MAX_LINE_LEN as int),
        (None, None) => true,
        _ => false,
    }
}

/// `new` is `old` with escape sequences removed from its content.
pub open spec fn line_stripped(old: LineInfo, new: LineInfo) -> bool {
    &&& new.line_number == old.line_number
    &&& new.severity == old.severity
    &&& new.rendered == old.rendered
    &&& new.content@ == ansi_stripped(old.content@)
}

/// `new` is `old` with all its texts truncated to `MAX_LINE_LEN` bytes.
pub open spec fn match_truncated(old: SearchMatch, new: SearchMatch) -> bool {
    &&& new.line_number == old.line_number
    &&& new.content@ == truncated_line(old.content@, MAX_LINE_LEN as int)
    &&& texts(new.before@) == truncated_texts(old.before@)
    &&& texts(new.after@) == truncated_texts(old.after@)
}

/// `new` is `old` with escape sequences removed from all its texts.
pub open spec fn match_stripped(old: SearchMatch, new: SearchMatch) -> bool {
    &&& new.line_number == old.line_number
    &&& new.content@ == ansi_stripped(old.content@)
    &&& texts(new.before@) == stripped_texts(old.before@)
    &&& texts(new.after@) == stripped_texts(old.after@)
}

/// Truncate content fields in a LineInfo.
fn truncate_line_info(line: LineInfo) -> (r: LineInfo)
    ensures
        line_truncated(line, r),
{
    let LineInfo { line_number, content, severity, rendered } = line;
    let rendered = match rendered {
        Some(t) => Some(truncated_string(t)),
        None => None,
    };
    LineInfo { line_number, content: truncated_string(content), severity, rendered }
}

/// Strip ANSI escape codes from a LineInfo's content.
fn strip_line_info(line: LineInfo) -> (r: LineInfo)
    ensures
        line_stripped(line, r),
{
    let LineInfo { line_number, content, severity, rendered } = line;
    LineInfo { line_number, content: strip_ansi(content.as_str()), severity, rendered }
}

fn truncate_line_infos(v: Vec<LineInfo>) -> (r: Vec<LineInfo>)
    ensures
        r@.len() == v@.len(),
        forall|j: int| 0 <= j < v@.len() ==> line_truncated(#[trigger] v@[j], r@[j]),
{
    let ghost orig = v@;
    let mut out: Vec<LineInfo> = Vec::new();
    for l in it: v.into_iter()
        invariant
            it.seq() == orig,
            out@.len() == it.index(),
            forall|j: int| 0 <= j < out@.len() ==> line_truncated(#[trigger] orig[j], out@[j]),
    {
        out.push(truncate_line_info(l));
    }
    out
}

fn strip_line_infos(v: Vec<LineInfo>) -> (r: Vec<LineInfo>)
    ensures
        r@.len() == v@.len(),
        forall|j: int| 0 <= j < v@.len() ==> line_stripped(#[trigger] v@[j], r@[j]),
{
    let ghost orig = v@;
    let mut out: Vec<LineInfo> = Vec::new();
    for l in it: v.into_iter()
        invariant
            it.seq() == orig,
            out@.len() == it.index(),
            forall|j: int| 0 <= j < out@.len() ==> line_stripped(#[trigger] orig[j], out@[j]),
    {
        out.push(strip_line_info(l));
    }
    out
}

/// Truncate all line content in a GetLinesResponse.
pub fn truncate_lines_response(resp: &mut GetLinesResponse)
    ensures
        final(resp).total_lines == old(resp).total_lines,
        final(resp).has_more == old(resp).has_more,
        final(resp).lines@.len() == old(resp).lines@.len(),
        forall|j: int|
            0 <= j < old(resp).lines@.len() ==> line_truncated(#[trigger] old(resp).lines@[j], final(resp).lines@[j]),
{
    let mut lines: Vec<LineInfo> = Vec::new();
    std::mem::swap(&mut lines, &mut resp.lines);
    resp.lines = truncate_line_infos(lines);
}

/// Strip ANSI escape codes from all line content in a GetLinesResponse.
pub fn strip_lines_response(resp: &mut GetLinesResponse)
    ensures
        final(resp).total_lines == old(resp).total_lines,
        final(resp).has_more == old(resp).has_more,
        final(resp).lines@.len() == old(resp).lines@.len(),
        forall|j: int|
            0 <= j < old(resp).lines@.len() ==> line_stripped(#[trigger] old(resp).lines@[j], final(resp).lines@[j]),
{
    let mut lines: Vec<LineInfo> = Vec::new();
    std::mem::swap(&mut lines, &mut resp.lines);
    resp.lines = strip_line_infos(lines);
}

/// Truncate all content in a SearchResponse.
pub fn truncate_search_response(resp: &mut SearchResponse)
    ensures
        final(resp).total_matches == old(resp).total_matches,
        final(resp).truncated == old(resp).truncated,
        final(resp).lines_searched == old(resp).lines_searched,
        final(resp).matches@.len() == old(resp).matches@.len(),
        forall|j: int|
            0 <= j < old(resp).matches@.len() ==> match_truncated(#[trigger] old(resp).matches@[j], final(resp).matches@[j]),
{
    let mut ms: Vec<SearchMatch> = Vec::new();
    std::mem::swap(&mut ms, &mut resp.matches);
    let ghost orig = ms@;
    let mut out: Vec<SearchMatch> = Vec::new();
    for m in it: ms.into_iter()
        invariant
            it.seq() == orig,
            out@.len() == it.index(),
            forall|j: int| 0 <= j < out@.len() ==> match_truncated(#[trigger] orig[j], out@[j]),
    {
        let SearchMatch { line_number, content, before, after } = m;
        out.push(
            SearchMatch {
                line_number,
                content: truncated_string(content),
                before: truncate_strings(before),
                after: truncate_strings(after),
            },
        );
    }
    resp.matches = out;
}

/// Strip ANSI escape codes from all content in a SearchResponse.
pub fn strip_search_response(resp: &mut SearchResponse)
    ensures
        final(resp).total_matches == old(resp).total_matches,
        final(resp).truncated == old(resp).truncated,
        final(resp).lines_searched == old(resp).lines_searched,
        final(resp).matches@.len() == old(resp).matches@.len(),
        forall|j: int|
            0 <= j < old(resp).matches@.len() ==> match_stripped(#[trigger] old(resp).matches@[j], final(resp).matches@[j]),
{
    let mut ms: Vec<SearchMatch> = Vec::new();
    std::mem::swap(&mut ms, &mut resp.matches);
    let ghost orig = ms@;
    let mut out: Vec<SearchMatch> = Vec::new();
    for m in it: ms.into_iter()
        invariant
            it.seq() == orig,
            out@.len() == it.index(),
            forall|j: int| 0 <= j < out@.len() ==> match_stripped(#[trigger] orig[j], out@[j]),
    {
        let SearchMatch { line_number, content, before, after } = m;
        out.push(
            SearchMatch {
                line_number,
                content: strip_ansi(content.as_str()),
                before: strip_strings(before),
                after: strip_strings(after),
            },
        );
    }
    resp.matches = out;
}

/// Truncate all content in a GetContextResponse.
pub fn truncate_context_response(resp: &mut GetContextResponse)
    ensures
        final(resp).total_lines == old(resp).total_lines,
        line_truncated(old(resp).target_line, final(resp).target_line),
        final(resp).before_lines@.len() == old(resp).before_lines@.len(),
        forall|j: int|
            0 <= j < old(resp).before_lines@.len() ==> line_truncated(
                #[trigger] old(resp).before_lines@[j],
                final(resp).before_lines@[j],
            ),
        final(resp).after_lines@.len() == old(resp).after_lines@.len(),
        forall|j: int|
            0 <= j < old(resp).after_lines@.len() ==> line_truncated(
                #[trigger] old(resp).after_lines@[j],
                final(resp).after_lines@[j],
            ),
{
    let mut before: Vec<LineInfo> = Vec::new();
    std::mem::swap(&mut before, &mut resp.before_lines);
    resp.before_lines = truncate_line_infos(before);
    let mut after: Vec<LineInfo> = Vec::new();
    std::mem::swap(&mut after, &mut resp.after_lines);
    resp.after_lines = truncate_line_infos(after);
    let mut target = LineInfo { line_number: 0, content: String::new(), severity: None, rendered: None };
    std::mem::swap(&mut target, &mut resp.target_line);
    resp.target_line = truncate_line_info(target);
}

/// Strip ANSI escape codes from all content in a GetContextResponse.
pub fn strip_context_response(resp: &mut GetContextResponse)
    ensures
        final(resp).total_lines == old(resp).total_lines,
        line_stripped(old(resp).target_line, final(resp).target_line),
        final(resp).before_lines@.len() == old(resp).before_lines@.len(),
        forall|j: int|
            0 <= j < old(resp).before_lines@.len() ==> line_stripped(
                #[trigger] old(resp).before_lines@[j],
                final(resp).before_lines@[j],
            ),
        final(resp).after_lines@.len() == old(resp).after_lines@.len(),
        forall|j: int|
            0 <= j < old(resp).after_lines@.len() ==> line_stripped(
                #[trigger] old(resp).after_lines@[j],
                final(resp).after_lines@[j],
            ),
{
    let mut before: Vec<LineInfo> = Vec::new();
    std::mem::swap(&mut before, &mut resp.before_lines);
    resp.before_lines = strip_line_infos(before);
    let mut after: Vec<LineInfo> = Vec::new();
    std::mem::swap(&mut after, &mut resp.after_lines);
    resp.after_lines = strip_line_infos(after);
    let mut target = LineInfo { line_number: 0, content: String::new(), severity: None, rendered: None };
    std::mem::swap(&mut target, &mut resp.target_line);
    resp.target_line = strip_line_info(target);
}

/// Progress message of a background search.
pub enum FilterProgress {
    /// Some matches, and the number of lines processed so far.
    PartialResults { matches: Vec<usize>, lines_processed: usize },
    /// The last matches, and the number of lines processed in all.
    Complete { matches: Vec<usize>, lines_processed: usize },
    /// Number of lines processed so far.
    Processing(usize),
    /// The search failed.
    Error(String),
}

/// What a sequence of progress messages amounts to: the matches in the order
/// received and the last line count, or the first error.
pub open spec fn collected(p: Seq<FilterProgress>) -> Result<(Seq<usize>, usize), Seq<char>>
    decreases p.len(),
{
    if p.len() == 0 {
        Ok((seq![], 0))
    } else {
        match collected(p.drop_last()) {
            Err(e) => Err(e),
            Ok((m, n)) => match p.last() {
                FilterProgress::PartialResults { matches, lines_processed } => Ok((m + matches@, lines_processed)),
                FilterProgress::Complete { matches, lines_processed } => Ok((m + matches@, lines_processed)),
                FilterProgress::Processing(k) => Ok((m, k)),
                FilterProgress::Error(e) => Err(e@),
            },
        }
    }
}

/// Collect the progress messages of a search, in the order received, into
/// the matching line indices and the number of lines searched; the first
/// error message ends the collection.
pub fn collect_filter_results(progress: Vec<FilterProgress>) -> (r: Result<(Vec<usize>, usize), String>)
    ensures
        match (r, collected(progress@)) {
            (Ok((v, n)), Ok((m, k))) => v@ == m && n == k,
            (Err(e), Err(f)) => e@ == f,
            _ => false,
        },
{
    let ghost orig = progress@;
    let mut matching_indices: Vec<usize> = Vec::new();
    let mut lines_searched: usize = 0;
    for p in it: progress.into_iter()
        invariant
            it.seq() == orig,
            collected(orig.take(it.index() as int)) == Ok::<(Seq<usize>, usize), Seq<char>>(
                (matching_indices@, lines_searched),
            ),
    {
        let ghost i = it.index() as int;
        proof {
            assert(orig.take(i + 1).drop_last() == orig.take(i));
        }
        match p {
            FilterProgress::PartialResults { matches, lines_processed } => {
                let mut ms = matches;
                matching_indices.append(&mut ms);
                lines_searched = lines_processed;
            },
            FilterProgress::Complete { matches, lines_processed } => {
                let mut ms = matches;
                matching_indices.append(&mut ms);
                lines_searched = lines_processed;
            },
            FilterProgress::Processing(n) => {
                lines_searched = n;
            },
            FilterProgress::Error(e) => {
                proof {
                    lemma_collected_error_stays(orig, i + 1);
                }
                return Err(e);
            },
        }
    }
    proof {
        assert(orig.take(orig.len() as int) == orig);
    }
    Ok((matching_indices, lines_searched))
}

proof fn lemma_collected_error_stays(p: Seq<FilterProgress>, k: int)
    requires
        0 <= k <= p.len(),
        collected(p.take(k)) is Err,
    ensures
        collected(p) == collected(p.take(k)),
    decreases p.len() - k,
{
    if k < p.len() {
        assert(p.take(k + 1).drop_last() == p.take(k));
        lemma_collected_error_stays(p, k + 1);
    } else {
        assert(p.take(k) == p);
    }
}

/// `YYYY-MM-DDThh:mm:ssZ` for the given epoch seconds (UTC).
pub open spec fn iso8601_text(epoch: int) -> Seq<char> {
    let c = civil_components(epoch);
    timestamp_text(c.0, c.1, c.2, c.3, c.4, c.5)
}

/// `YYYY-MM-DDThh:mm:ssZ` for a date and time of day.
pub open spec fn timestamp_text(year: int, month: int, day: int, hour: int, minute: int, second: int) -> Seq<char> {
    padded(year, 4) + "-"@ + padded(month, 2) + "-"@ + padded(day, 2) + "T"@ + padded(hour, 2) + ":"@
        + padded(minute, 2) + ":"@ + padded(second, 2) + "Z"@
}

/// Convert epoch milliseconds to ISO 8601 UTC string (e.g. "2026-04-08T12:34:56Z").
pub fn millis_to_iso8601(ms: u64) -> (r: String)
    ensures
        r@ == iso8601_text(ms as int / 1000),
{
    let epoch: i64 = (ms / 1000) as i64;
    let (year, month, day, hour, minute, second) = epoch_secs_to_components(epoch);
    let mut out: Vec<char> = Vec::new();
    push_padded(&mut out, year as i128, 4);
    push_str(&mut out, "-");
    push_padded(&mut out, month as i128, 2);
    push_str(&mut out, "-");
    push_padded(&mut out, day as i128, 2);
    push_str(&mut out, "T");
    push_padded(&mut out, hour as i128, 2);
    push_str(&mut out, ":");
    push_padded(&mut out, minute as i128, 2);
    push_str(&mut out, ":");
    push_padded(&mut out, second as i128, 2);
    push_str(&mut out, "Z");
    string_from_chars(out.as_slice())
}


/// Characters `a..a + w` of `t`, as bytes at the same places of `b`, are
/// the digits of `padded(v, w)`, and they read back as `v`.
proof fn lemma_field_reads(b: Seq<u8>, a: int, w: nat, v: int)
    requires
        vstd::utf8::valid_utf8(b),
        0 <= a,
        a + w <= b.len(),
        b[a] < 0x80,
        a + w < b.len() ==> b[a + w] < 0x80,
        w >= 1,
        0 <= v < pow10(w),
        v <= i64::MAX,
        b.subrange(a, a + w) == ascii_bytes(padded(v, w as int)),
    ensures
        field_i64(b, a, a + w) == Some(v),
{
    lemma_padded_reads_back(v, w);
    vstd::utf8::is_char_boundary_iff_is_leading_byte(b, a);
    if a + w < b.len() {
        vstd::utf8::is_char_boundary_iff_is_leading_byte(b, a + w);
    } else {
        vstd::utf8::is_char_boundary_start_end_of_seq(b);
    }
    let x = b.subrange(a, a + w);
    assert(all_digits(x));
    assert(48 <= x[0] <= 57);
}

/// Reading back a `YYYY-MM-DDThh:mm:ssZ` timestamp of a date and time of
/// day with a four-digit year gives its epoch seconds.
#[verifier::rlimit(50)]
pub proof fn lemma_timestamp_text_reads(year: int, month: int, day: int, hour: int, minute: int, second: int)
    requires
        0 <= year <= 9999,
        1 <= month <= 12,
        1 <= day <= 31,
        0 <= hour <= 23,
        0 <= minute <= 59,
        0 <= second <= 59,
    ensures
        iso8601_secs(timestamp_text(year, month, day, hour, minute, second)) == Some(
            epoch_of_date(year, month, day, hour, minute, second),
        ),
{
    reveal_with_fuel(pow10, 5);
    reveal_strlit("-");
    reveal_strlit("T");
    reveal_strlit(":");
    reveal_strlit("Z");
    let p0 = padded(year, 4);
    let p1 = padded(month, 2);
    let p2 = padded(day, 2);
    let p3 = padded(hour, 2);
    let p4 = padded(minute, 2);
    let p5 = padded(second, 2);
    lemma_padded_reads_back(year, 4);
    lemma_padded_reads_back(month, 2);
    lemma_padded_reads_back(day, 2);
    lemma_padded_reads_back(hour, 2);
    lemma_padded_reads_back(minute, 2);
    lemma_padded_reads_back(second, 2);
    let t = timestamp_text(year, month, day, hour, minute, second);
    let u = p0 + seq!['-'] + p1 + seq!['-'] + p2 + seq!['T'] + p3 + seq![':'] + p4 + seq![':'] + p5
        + seq!['Z'];
    assert(t =~= u);
    assert(u.len() == 20);
    assert(t.len() == 20);
    assert forall|k: int| 0 <= k < 20 implies '\0' <= #[trigger] t[k] <= '\u{7f}' by {
        if k < 4 {
            assert(t[k] == p0[k]);
        } else if 5 <= k < 7 {
            assert(t[k] == p1[k - 5]);
        } else if 8 <= k < 10 {
            assert(t[k] == p2[k - 8]);
        } else if 11 <= k < 13 {
            assert(t[k] == p3[k - 11]);
        } else if 14 <= k < 16 {
            assert(t[k] == p4[k - 14]);
        } else if 17 <= k < 19 {
            assert(t[k] == p5[k - 17]);
        }
    }
    assert(vstd::utf8::is_ascii_chars(t));
    assert(!is_whitespace(t[0]));
    assert(trim_start_ws(t) == t);
    assert(t.last() == 'Z');
    assert(trim_end_ws(t) == t);
    assert(trim_ws(t) == t);
    vstd::utf8::is_ascii_chars_encode_utf8(t);
    vstd::utf8::encode_utf8_valid_utf8(t);
    let b = vstd::utf8::encode_utf8(t);
    assert(b.len() == 20);
    assert forall|k: int| 0 <= k < 20 implies #[trigger] b[k] < 0x80 && b[k] == t[k] as u8 by {
        assert(t[k] as u8 == b[k]);
    }
    assert(b.subrange(0, 4) =~= ascii_bytes(p0));
    assert(b.subrange(5, 7) =~= ascii_bytes(p1));
    assert(b.subrange(8, 10) =~= ascii_bytes(p2));
    assert(b.subrange(11, 13) =~= ascii_bytes(p3));
    assert(b.subrange(14, 16) =~= ascii_bytes(p4));
    assert(b.subrange(17, 19) =~= ascii_bytes(p5));
    lemma_field_reads(b, 0, 4, year);
    lemma_field_reads(b, 5, 2, month);
    lemma_field_reads(b, 8, 2, day);
    lemma_field_reads(b, 11, 2, hour);
    lemma_field_reads(b, 14, 2, minute);
    lemma_field_reads(b, 17, 2, second);
    assert(b[4] == 45 && b[7] == 45 && b[10] == 84 && b[13] == 58 && b[16] == 58);
    let z = seq!['Z'];
    vstd::utf8::is_ascii_chars_encode_utf8(z);
    vstd::utf8::encode_utf8_decode_utf8(z);
    assert(b.subrange(19, 20) =~= vstd::utf8::encode_utf8(z));
    assert(vstd::utf8::decode_utf8(b.subrange(19, b.len() as int)) == z);
}

/// Reading back the timestamp that `millis_to_iso8601` writes gives its
/// whole seconds, up to the year 9999 (the year field is four digits).
pub proof fn lemma_iso8601_round_trip(ms: u64)
    requires
        civil_components(ms as int / 1000).0 <= 9999,
    ensures
        iso8601_secs(iso8601_text(ms as int / 1000)) == Some(ms as int / 1000),
{
    let e = ms as int / 1000;
    let c = civil_components(e);
    lemma_civil_ranges(e);
    lemma_calendar_round_trip(e);
    lemma_timestamp_text_reads(c.0, c.1, c.2, c.3, c.4, c.5);
}

/// A UTC timestamp `YYYY-MM-DDThh:mm:ssZ` of a valid date and time with a
/// four-digit year, shown in absolute mode, reads `YYYY-MM-DD hh:mm:ss` with
/// the same date and time, whatever the clock says.
pub proof fn lemma_absolute_datetime_shows_timestamp(
    year: int,
    month: int,
    day: int,
    hour: int,
    minute: int,
    second: int,
    now: int,
)
    requires
        0 <= year <= 9999,
        1 <= month <= 12,
        1 <= day <= days_in_month(year, month),
        0 <= hour <= 23,
        0 <= minute <= 59,
        0 <= second <= 59,
    ensures
        datetime_text(timestamp_text(year, month, day, hour, minute, second), DateTimeMode::Absolute, now)
            == Some(
            padded(year, 4) + "-"@ + padded(month, 2) + "-"@ + padded(day, 2) + " "@ + padded(hour, 2) + ":"@
                + padded(minute, 2) + ":"@ + padded(second, 2),
        ),
{
    lemma_timestamp_text_reads(year, month, day, hour, minute, second);
    lemma_date_round_trip(year, month, day, hour, minute, second);
}

/// The bytes of an ASCII text are its characters, and the text reads
/// unchanged once trimmed when it starts and ends with digits.
proof fn lemma_digit_text(t: Seq<char>)
    requires
        t.len() > 0,
        forall|k: int| 0 <= k < t.len() ==> ('0' <= #[trigger] t[k] <= '9' || t[k] == ':'),
        '0' <= t[0] <= '9',
        '0' <= t.last() <= '9',
    ensures
        trim_ws(t) == t,
        vstd::utf8::valid_utf8(encode_utf8(t)),
        encode_utf8(t).len() == t.len(),
        forall|k: int| 0 <= k < t.len() ==> #[trigger] encode_utf8(t)[k] < 0x80 && encode_utf8(t)[k] == t[k] as u8,
{
    assert(vstd::utf8::is_ascii_chars(t));
    assert(!is_whitespace(t[0]));
    assert(trim_start_ws(t) == t);
    assert(!is_whitespace(t.last()));
    assert(trim_end_ws(t) == t);
    vstd::utf8::is_ascii_chars_encode_utf8(t);
    vstd::utf8::encode_utf8_valid_utf8(t);
    assert forall|k: int| 0 <= k < t.len() implies #[trigger] encode_utf8(t)[k] < 0x80 && encode_utf8(t)[k]
        == t[k] as u8 by {
        assert(t[k] as u8 == encode_utf8(t)[k]);
    }
}

/// A zone offset written `hhmm` denotes the same seconds as `hh:mm`: `hh`
/// hours and `mm` minutes; `hh` alone denotes `hh` hours.
pub proof fn lemma_tz_offset_forms(h: int, m: int)
    requires
        0 <= h <= 99,
        0 <= m <= 99,
    ensures
        tz_offset_secs(padded(h, 2) + padded(m, 2)) == Some(3600 * h + 60 * m),
        tz_offset_secs(padded(h, 2) + seq![':'] + padded(m, 2)) == Some(3600 * h + 60 * m),
        tz_offset_secs(padded(h, 2)) == Some(3600 * h),
{
    reveal_with_fuel(pow10, 3);
    let ph = padded(h, 2);
    let pm = padded(m, 2);
    lemma_padded_reads_back(h, 2);
    lemma_padded_reads_back(m, 2);
    // hhmm
    let t1 = ph + pm;
    assert forall|k: int| 0 <= k < t1.len() implies ('0' <= #[trigger] t1[k] <= '9' || t1[k] == ':') by {
        if k < 2 {
            assert(t1[k] == ph[k]);
        } else {
            assert(t1[k] == pm[k - 2]);
        }
    }
    assert(t1[0] == ph[0] && t1.last() == pm[1]);
    lemma_digit_text(t1);
    let b1 = encode_utf8(t1);
    assert(b1.subrange(0, 2) =~= ascii_bytes(ph));
    assert(b1.subrange(2, 4) =~= ascii_bytes(pm));
    lemma_field_reads(b1, 0, 2, h);
    lemma_field_reads(b1, 2, 2, m);
    // hh:mm
    let t2 = ph + seq![':'] + pm;
    assert forall|k: int| 0 <= k < t2.len() implies ('0' <= #[trigger] t2[k] <= '9' || t2[k] == ':') by {
        if k < 2 {
            assert(t2[k] == ph[k]);
        } else if k > 2 {
            assert(t2[k] == pm[k - 3]);
        }
    }
    assert(t2[0] == ph[0] && t2.last() == pm[1]);
    lemma_digit_text(t2);
    let b2 = encode_utf8(t2);
    assert(b2[2] == 58);
    assert(b2.subrange(0, 2) =~= ascii_bytes(ph));
    assert(b2.subrange(3, 5) =~= ascii_bytes(pm));
    lemma_field_reads(b2, 0, 2, h);
    lemma_field_reads(b2, 3, 2, m);
    // hh
    assert(ph[0] == ph[0] && ph.last() == ph[1]);
    lemma_digit_text(ph);
    let b3 = encode_utf8(ph);
    assert(b3.subrange(0, 2) =~= ascii_bytes(ph));
    lemma_field_reads(b3, 0, 2, h);
}

} // verus!
