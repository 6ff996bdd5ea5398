//! Plain text formatters for MCP tool responses.
//!
//! These produce a compact, human/AI-readable format that avoids the JSON escaping
//! explosion that occurs when log lines contain JSON content. Format:
//! - `--- key: value` header lines
//! - Blank line separator
//! - `{line_number}|{content}` for content lines
//! - `> ` prefix for match/target lines, `  ` for context lines
use super::types::{GetContextResponse, GetLinesResponse, LineInfo, SearchMatch, SearchResponse};
use crate::text::{decimal, push_decimal, string_from_chars};
use vstd::prelude::*;
use vstd::string::{StringExecFns, StringSliceAdditionalSpecFns};

verus! {

/// Maximum total output size for search results in bytes. Once exceeded, remaining
/// matches are omitted and metadata is appended so the caller knows to narrow the search.
pub const SEARCH_MAX_OUTPUT_BYTES: usize = 80_000;

/// Number of UTF-8 bytes of a text, as a `usize` length.
pub open spec fn text_len(s: Seq<char>) -> usize {
    vstd::utf8::encode_utf8(s).len() as usize
}

pub open spec fn bool_text(b: bool) -> Seq<char> {
    if b {
        "true"@
    } else {
        "false"@
    }
}

/// `"{prefix}{first + j}|{line}\n"` for each line `j`.
pub open spec fn numbered_lines(prefix: Seq<char>, lines: Seq<String>, first: int) -> Seq<char>
    decreases lines.len(),
{
    if lines.len() == 0 {
        seq![]
    } else {
        numbered_lines(prefix, lines.drop_last(), first) + prefix + decimal((first + lines.len() - 1) as nat)
            + "|"@ + lines.last()@ + "\n"@
    }
}

/// The text block of one match: its context lines around the `> ` line.
pub open spec fn match_block(m: SearchMatch) -> Seq<char> {
    let start = if m.line_number >= m.before@.len() { m.line_number - m.before@.len() } else { 0 };
    "=== match\n"@ + numbered_lines("  "@, m.before@, start) + "> "@ + decimal(m.line_number as nat)
        + "|"@ + m.content@ + "\n"@ + numbered_lines("  "@, m.after@, m.line_number + 1)
}

/// The header lines and blank separator of a search response.
pub open spec fn search_header(resp: SearchResponse) -> Seq<char> {
    "--- total_matches: "@ + decimal(resp.total_matches as nat) + "\n"@ + "--- truncated: "@ + bool_text(resp.truncated)
        + "\n"@ + "--- lines_searched: "@ + decimal(resp.lines_searched as nat) + "\n"@ + "\n"@
}

/// Output after `acc` for matches `i..`: each block (separated by a blank
/// line) until the text so far passes the byte budget, then two lines
/// saying where and after how many matches it stopped.
pub open spec fn search_text_from(ms: Seq<SearchMatch>, i: int, acc: Seq<char>) -> Seq<char>
    decreases ms.len() - i,
{
    if i >= ms.len() || i < 0 {
        acc
    } else if text_len(acc) > SEARCH_MAX_OUTPUT_BYTES {
        acc + "--- output_truncated_at_bytes: "@ + decimal(text_len(acc) as nat) + "\n"@ + "--- matches_shown: "@
            + decimal(i as nat) + "\n"@
    } else {
        search_text_from(ms, i + 1, acc + (if i > 0 { "\n"@ } else { seq![] }) + match_block(ms[i]))
    }
}

/// Appends the decimal form of `n`.
fn append_number(out: &mut String, n: usize)
    ensures
        final(out)@ == old(out)@ + decimal(n as nat),
{
    let mut digits: Vec<char> = Vec::new();
    push_decimal(&mut digits, n as u128);
    let d = string_from_chars(digits.as_slice());
    out.append(d.as_str());
}

/// Appends `"{prefix}{first + j}|{line}\n"` for each line.
fn append_numbered(out: &mut String, prefix: &str, lines: &Vec<String>, first: usize)
    requires
        first + lines@.len() <= usize::MAX,
    ensures
        final(out)@ == old(out)@ + numbered_lines(prefix@, lines@, first as int),
{
    let ghost base = old(out)@;
    let mut j: usize = 0;
    while j < lines.len()
        invariant
            first + lines@.len() <= usize::MAX,
            0 <= j <= lines@.len(),
            out@ == base + numbered_lines(prefix@, lines@.take(j as int), first as int),
        decreases lines@.len() - j,
    {
        out.append(prefix);
        append_number(out, first + j);
        out.append("|");
        out.append(lines[j].as_str());
        out.append("\n");
        proof {
            let t = lines@.take(j + 1);
            assert(t.drop_last() == lines@.take(j as int));
            assert(t.last() == lines@[j as int]);
        }
        j = j + 1;
    }
    proof {
        assert(lines@.take(lines@.len() as int) == lines@);
    }
}

/// Appends `b` as `true` or `false`.
fn append_bool(out: &mut String, b: bool)
    ensures
        final(out)@ == old(out)@ + bool_text(b),
{
    if b {
        out.append("true");
    } else {
        out.append("false");
    }
}

/// Format a SearchResponse as plain text.
#[verifier::spinoff_prover]
#[verifier::rlimit(40)]
pub fn format_search_text(resp: &SearchResponse) -> (r: String)
    requires
        forall|i: int|
            0 <= i < resp.matches@.len() ==> #[trigger] resp.matches@[i].line_number + 1
                + resp.matches@[i].after@.len() <= usize::MAX,
    ensures
        r@ == search_text_from(resp.matches@, 0, search_header(*resp)),
{
    let mut out = String::new();
    out.append("--- total_matches: ");
    append_number(&mut out, resp.total_matches);
    out.append("\n");
    out.append("--- truncated: ");
    append_bool(&mut out, resp.truncated);
    out.append("\n");
    out.append("--- lines_searched: ");
    append_number(&mut out, resp.lines_searched);
    out.append("\n");
    out.append("\n");
    let ghost ms = resp.matches@;
    let n = resp.matches.len();
    let mut i: usize = 0;
    while i < n
        invariant
            n == ms.len(),
            ms == resp.matches@,
            forall|k: int| 0 <= k < ms.len() ==> #[trigger] ms[k].line_number + 1 + ms[k].after@.len() <= usize::MAX,
            0 <= i <= n,
            search_text_from(ms, i as int, out@) == search_text_from(ms, 0, search_header(*resp)),
        decreases n - i,
    {
        if out.as_str().len() > SEARCH_MAX_OUTPUT_BYTES {
            let shown = out.as_str().len();
            out.append("--- output_truncated_at_bytes: ");
            append_number(&mut out, shown);
            out.append("\n");
            out.append("--- matches_shown: ");
            append_number(&mut out, i);
            out.append("\n");
            return out;
        }
        let ghost before_block = out@;
        if i > 0 {
            out.append("\n");
        }
        let m = &resp.matches[i];
        out.append("=== match\n");
        let start = if m.line_number >= m.before.len() {
            m.line_number - m.before.len()
        } else {
            0
        };
        append_numbered(&mut out, "  ", &m.before, start);
        out.append("> ");
        append_number(&mut out, m.line_number);
        out.append("|");
        out.append(m.content.as_str());
        out.append("\n");
        append_numbered(&mut out, "  ", &m.after, m.line_number + 1);
        proof {
            let sep = if i > 0 { "\n"@ } else { Seq::<char>::empty() };
            assert(out@ == before_block + sep + match_block(ms[i as int]));
        }
        i = i + 1;
    }
    out
}

/// `"{prefix}{line_number}|{content}\n"` for each line record.
pub open spec fn info_lines(prefix: Seq<char>, infos: Seq<LineInfo>) -> Seq<char>
    decreases infos.len(),
{
    if infos.len() == 0 {
        seq![]
    } else {
        info_lines(prefix, infos.drop_last()) + prefix + decimal(infos.last().line_number as nat) + "|"@
            + infos.last().content@ + "\n"@
    }
}

/// Appends `"{prefix}{line_number}|{content}\n"` for each line record.
fn append_infos(out: &mut String, prefix: &str, infos: &Vec<LineInfo>)
    ensures
        final(out)@ == old(out)@ + info_lines(prefix@, infos@),
{
    let ghost base = old(out)@;
    let mut j: usize = 0;
    while j < infos.len()
        invariant
            0 <= j <= infos@.len(),
            out@ == base + info_lines(prefix@, infos@.take(j as int)),
        decreases infos@.len() - j,
    {
        out.append(prefix);
        append_number(out, infos[j].line_number);
        out.append("|");
        out.append(infos[j].content.as_str());
        out.append("\n");
        proof {
            let t = infos@.take(j + 1);
            assert(t.drop_last() == infos@.take(j as int));
            assert(t.last() == infos@[j as int]);
        }
        j = j + 1;
    }
    proof {
        assert(infos@.take(infos@.len() as int) == infos@);
    }
}

/// The plain text of a lines response.
pub open spec fn lines_text(resp: GetLinesResponse) -> Seq<char> {
    "--- total_lines: "@ + decimal(resp.total_lines as nat) + "\n"@ + "--- has_more: "@ + bool_text(resp.has_more)
        + "\n"@ + "\n"@ + info_lines(""@, resp.lines@)
}

/// Format a GetLinesResponse (used by get_lines and get_tail) as plain text.
pub fn format_lines_text(resp: &GetLinesResponse) -> (r: String)
    ensures
        r@ == lines_text(*resp),
{
    let mut out = String::new();
    out.append("--- total_lines: ");
    append_number(&mut out, resp.total_lines);
    out.append("\n");
    out.append("--- has_more: ");
    append_bool(&mut out, resp.has_more);
    out.append("\n");
    out.append("\n");
    append_infos(&mut out, "", &resp.lines);
    out
}

/// The plain text of a context response: the target line marked `> `.
pub open spec fn context_text(resp: GetContextResponse) -> Seq<char> {
    "--- total_lines: "@ + decimal(resp.total_lines as nat) + "\n"@ + "\n"@ + info_lines("  "@, resp.before_lines@)
        + "> "@ + decimal(resp.target_line.line_number as nat) + "|"@ + resp.target_line.content@ + "\n"@
        + info_lines("  "@, resp.after_lines@)
}

/// Format a GetContextResponse as plain text.
pub fn format_context_text(resp: &GetContextResponse) -> (r: String)
    ensures
        r@ == context_text(*resp),
{
    let mut out = String::new();
    out.append("--- total_lines: ");
    append_number(&mut out, resp.total_lines);
    out.append("\n");
    out.append("\n");
    append_infos(&mut out, "  ", &resp.before_lines);
    out.append("> ");
    append_number(&mut out, resp.target_line.line_number);
    out.append("|");
    out.append(resp.target_line.content.as_str());
    out.append("\n");
    append_infos(&mut out, "  ", &resp.after_lines);
    out
}

} // verus!
