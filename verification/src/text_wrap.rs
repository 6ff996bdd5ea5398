//! Wrapping of log lines to the width of the view, by display columns, and
//! expansion of tabs. Display widths come from the `unicode-width` tables.
use crate::text::{str_chars, string_from_char_range, string_from_chars};
use unicode_width::{UnicodeWidthChar, UnicodeWidthStr};
use vstd::prelude::*;

verus! {

/// Columns that `unicode-width` gives a character (`None` for control
/// characters).
pub uninterp spec fn unicode_char_width(c: char) -> Option<usize>;

/// Columns that `unicode-width` gives a string; it can differ from the sum of
/// its characters' widths (`"\r\n"`, emoji sequences).
pub uninterp spec fn unicode_str_width(s: Seq<char>) -> usize;

/// `UnicodeWidthChar::width`: the table width of one character.
#[verifier::external_body]
fn char_width(c: char) -> (r: Option<usize>)
    ensures
        r == unicode_char_width(c),
{
    UnicodeWidthChar::width(c)
}

/// `UnicodeWidthStr::width`: the table width of a string.
#[verifier::external_body]
pub(crate) fn str_width(s: &str) -> (r: usize)
    ensures
        r == unicode_str_width(s@),
{
    UnicodeWidthStr::width(s)
}

/// Width of a character when laying out a line: control characters take no
/// column.
pub open spec fn col_width(c: char) -> int {
    match unicode_char_width(c) {
        Some(w) => w as int,
        None => 0,
    }
}

/// Number of characters of `s` from position `i` on that fit in `limit`
/// columns when `used` columns are already taken: layout stops at the first
/// character that would overflow.
pub open spec fn fit_from(s: Seq<char>, i: int, used: int, limit: int) -> int
    decreases s.len() - i,
{
    if i >= s.len() {
        s.len() as int
    } else if used + col_width(s[i]) > limit {
        i
    } else {
        fit_from(s, i + 1, used + col_width(s[i]), limit)
    }
}

/// Number of leading characters of `s` that fit in `limit` columns.
pub open spec fn fit_len(s: Seq<char>, limit: int) -> int {
    fit_from(s, 0, 0, limit)
}

pub proof fn lemma_fit_from_range(s: Seq<char>, i: int, used: int, limit: int)
    requires
        0 <= i <= s.len(),
    ensures
        i <= fit_from(s, i, used, limit) <= s.len(),
    decreases s.len() - i,
{
    if i < s.len() && used + col_width(s[i]) <= limit {
        lemma_fit_from_range(s, i + 1, used + col_width(s[i]), limit);
    }
}

/// Characters of `cs[start..]` that fit in `limit` columns.
fn fit(cs: &Vec<char>, start: usize, limit: usize) -> (r: usize)
    requires
        start <= cs@.len(),
    ensures
        r - start == fit_len(cs@.skip(start as int), limit as int),
        start <= r <= cs@.len(),
{
    let ghost s = cs@.skip(start as int);
    let mut i: usize = start;
    let mut used: usize = 0;
    proof {
        lemma_fit_from_range(s, 0, 0, limit as int);
    }
    while i < cs.len()
        invariant
            s == cs@.skip(start as int),
            start <= i <= cs@.len(),
            used <= limit,
            fit_from(s, i - start, used as int, limit as int) == fit_len(s, limit as int),
        decreases cs@.len() - i,
    {
        assert(s[i - start] == cs@[i as int]);
        let w: usize = match char_width(cs[i]) {
            Some(w) => w,
            None => 0,
        };
        if w > limit - used {
            return i;
        }
        used = used + w;
        i = i + 1;
    }
    i
}

/// The lines of plain text wrapped at `width` columns: the longest prefix
/// that fits, at least one character, then the rest in the same way.
pub open spec fn plain_chunks(s: Seq<char>, width: int) -> Seq<Seq<char>>
    decreases s.len(),
{
    if s.len() == 0 {
        seq![]
    } else {
        let k0 = fit_len(s, width);
        let k = if k0 <= 0 || k0 > s.len() {
            1
        } else {
            k0
        };
        seq![s.take(k)] + plain_chunks(s.skip(k), width)
    }
}

/// The lines of `wrap_plain`, each a list of span texts (an empty list is
/// an empty line).
pub open spec fn plain_wrapped(s: Seq<char>, width: int) -> Seq<Seq<Seq<char>>> {
    if width == 0 {
        seq![seq![]]
    } else if unicode_str_width(s) <= width {
        seq![seq![s]]
    } else if plain_chunks(s, width).len() == 0 {
        seq![seq![]]
    } else {
        plain_chunks(s, width).map_values(|c: Seq<char>| seq![c])
    }
}

/// The span texts of one line, one after another.
pub open spec fn line_text(l: Seq<Seq<char>>) -> Seq<char>
    decreases l.len(),
{
    if l.len() == 0 {
        seq![]
    } else {
        line_text(l.drop_last()) + l.last()
    }
}

/// The texts of a list of plain lines (each a list of span texts), one after
/// another.
pub open spec fn plain_joined(lines: Seq<Seq<Seq<char>>>) -> Seq<char>
    decreases lines.len(),
{
    if lines.len() == 0 {
        seq![]
    } else {
        line_text(lines[0]) + plain_joined(
            lines.drop_first(),
        )
    }
}

proof fn lemma_plain_chunks_keep_text(s: Seq<char>, width: int)
    ensures
        plain_joined(plain_chunks(s, width).map_values(|c: Seq<char>| seq![c])) == s,
    decreases s.len(),
{
    let f = |c: Seq<char>| seq![c];
    if s.len() > 0 {
        let k0 = fit_len(s, width);
        let k = if k0 <= 0 || k0 > s.len() {
            1
        } else {
            k0
        };
        lemma_plain_chunks_keep_text(s.skip(k), width);
        let m = plain_chunks(s, width).map_values(f);
        assert(m.drop_first() =~= plain_chunks(s.skip(k), width).map_values(f));
        assert(m[0] == seq![s.take(k)]);
        assert(seq![s.take(k)].drop_last() =~= Seq::<Seq<char>>::empty());
        assert(line_text(Seq::<Seq<char>>::empty()) =~= Seq::<char>::empty());
        assert(line_text(seq![s.take(k)]) =~= s.take(k));
        assert(s =~= s.take(k) + s.skip(k));
    } else {
        assert(plain_chunks(s, width).map_values(f) =~= Seq::<Seq<Seq<char>>>::empty());
    }
}

/// Plain wrapping loses and repeats no text: the lines, read one after
/// another, are the content (for a nonzero width).
pub proof fn lemma_wrap_plain_keeps_text(s: Seq<char>, width: int)
    requires
        width > 0,
    ensures
        plain_joined(plain_wrapped(s, width)) == s,
{
    let one = seq![s];
    assert(one.drop_last() =~= Seq::<Seq<char>>::empty());
    assert(line_text(Seq::<Seq<char>>::empty()) =~= Seq::<char>::empty());
    assert(line_text(one) =~= s);
    assert(plain_joined(seq![one]) =~= s + plain_joined(seq![one].drop_first()));
    assert(seq![one].drop_first() =~= Seq::<Seq<Seq<char>>>::empty());
    if unicode_str_width(s) > width {
        lemma_plain_chunks_keep_text(s, width);
        if plain_chunks(s, width).len() == 0 {
            assert(plain_chunks(s, width).map_values(|c: Seq<char>| seq![c]) =~= Seq::<Seq<Seq<char>>>::empty());
            let e = Seq::<Seq<char>>::empty();
            assert(line_text(e) =~= Seq::<char>::empty());
            assert(seq![e].drop_first() =~= Seq::<Seq<Seq<char>>>::empty());
        }
    }
}

/// The span texts of each line.
pub open spec fn line_texts(lines: Seq<Vec<String>>) -> Seq<Seq<Seq<char>>> {
    lines.map_values(|l: Vec<String>| l@.map_values(|s: String| s@))
}

/// Wrap plain text without ANSI interpretation (for raw mode). Each line is
/// the list of its span texts; an empty list is an empty line.
pub fn wrap_plain(content: &str, available_width: usize) -> (r: Vec<Vec<String>>)
    ensures
        line_texts(r@) == plain_wrapped(content@, available_width as int),
{
    if available_width == 0 {
        let mut r: Vec<Vec<String>> = Vec::new();
        r.push(Vec::new());
        assert(line_texts(r@)[0] =~= Seq::<Seq<char>>::empty());
        assert(line_texts(r@) =~= seq![Seq::<Seq<char>>::empty()]);
        return r;
    }
    if str_width(content) <= available_width {
        let mut line: Vec<String> = Vec::new();
        line.push(content.to_string());
        let mut r: Vec<Vec<String>> = Vec::new();
        r.push(line);
        assert(line_texts(r@)[0] =~= seq![content@]);
        assert(line_texts(r@) =~= seq![seq![content@]]);
        return r;
    }
    let cs = str_chars(content);
    let mut out: Vec<Vec<String>> = Vec::new();
    let mut pos: usize = 0;
    assert(cs@.skip(0) == content@);
    assert(line_texts(out@) =~= Seq::<Seq<Seq<char>>>::empty());
    while pos < cs.len()
        invariant
            cs@ == content@,
            available_width > 0,
            pos <= cs@.len(),
            line_texts(out@) + plain_chunks(cs@.skip(pos as int), available_width as int).map_values(
                |c: Seq<char>| seq![c],
            ) == plain_chunks(content@, available_width as int).map_values(|c: Seq<char>| seq![c]),
        decreases cs@.len() - pos,
    {
        let ghost s = cs@.skip(pos as int);
        let mut end = fit(&cs, pos, available_width);
        if end == pos {
            end = pos + 1;
        }
        proof {
            lemma_fit_from_range(s, 0, 0, available_width as int);
            assert(s.take(end - pos) == cs@.subrange(pos as int, end as int));
            assert(s.skip(end - pos) == cs@.skip(end as int));
        }
        let part = string_from_char_range(cs.as_slice(), pos, end);
        let ghost before = line_texts(out@);
        let mut line: Vec<String> = Vec::new();
        line.push(part);
        assert(line@.map_values(|t: String| t@) =~= seq![s.take(end - pos)]);
        out.push(line);
        proof {
            let f = |c: Seq<char>| seq![c];
            let rest = plain_chunks(cs@.skip(end as int), available_width as int);
            assert(plain_chunks(s, available_width as int) == seq![s.take(end - pos)] + rest);
            assert(line_texts(out@) =~= before.push(seq![s.take(end - pos)]));
            assert((seq![s.take(end - pos)] + rest).map_values(f) =~= seq![seq![s.take(end - pos)]]
                + rest.map_values(f));
            assert(line_texts(out@) + rest.map_values(f) =~= before + (seq![s.take(end - pos)]
                + rest).map_values(f));
        }
        pos = end;
    }
    proof {
        assert(cs@.skip(cs@.len() as int).len() == 0);
        assert(plain_chunks(cs@.skip(cs@.len() as int), available_width as int).map_values(
            |c: Seq<char>| seq![c],
        ) =~= Seq::<Seq<Seq<char>>>::empty());
        assert(line_texts(out@) + Seq::<Seq<Seq<char>>>::empty() == line_texts(out@));
    }
    if out.len() == 0 {
        let mut r: Vec<Vec<String>> = Vec::new();
        r.push(Vec::new());
        assert(line_texts(r@)[0] =~= Seq::<Seq<char>>::empty());
        assert(line_texts(r@) =~= seq![Seq::<Seq<char>>::empty()]);
        return r;
    }
    out
}

/// Styled text: a span's characters and its style.
pub open spec fn span_view<S>(sp: (String, S)) -> (Seq<char>, S) {
    (sp.0@, sp.1)
}

pub open spec fn spans_view<S>(v: Seq<(String, S)>) -> Seq<(Seq<char>, S)> {
    v.map_values(|sp: (String, S)| span_view(sp))
}

pub open spec fn lines_view<S>(v: Seq<Vec<(String, S)>>) -> Seq<Seq<(Seq<char>, S)>> {
    v.map_values(|l: Vec<(String, S)>| spans_view(l@))
}

/// Layout state while wrapping spans: finished lines, the spans of the line
/// being filled, and the columns it takes.
pub struct WrapState<S> {
    pub lines: Seq<Seq<(Seq<char>, S)>>,
    pub current: Seq<(Seq<char>, S)>,
    pub current_width: int,
}

/// Lay out the text `rem` of one span onto the state: it joins the current
/// line whole when its width fits what is left of the line; otherwise the
/// prefix that fits (at least one character on an empty line) ends the line
/// and the rest goes on.
pub open spec fn span_pieces<S>(st: WrapState<S>, rem: Seq<char>, style: S, width: int) -> WrapState<S>
    decreases rem.len(), if st.current.len() > 0 { 1int } else { 0int },
{
    if rem.len() == 0 {
        st
    } else {
        let rw = unicode_str_width(rem);
        let limit = if st.current.len() == 0 {
            width
        } else if width >= st.current_width {
            width - st.current_width
        } else {
            0
        };
        if rw <= limit {
            WrapState {
                lines: st.lines,
                current: st.current.push((rem, style)),
                current_width: st.current_width + rw,
            }
        } else {
            proof {
                lemma_fit_from_range(rem, 0, 0, limit);
            }
            let k0 = fit_len(rem, limit);
            let k = if k0 == 0 && st.current.len() == 0 {
                1
            } else {
                k0
            };
            let line = if k > 0 {
                st.current.push((rem.take(k), style))
            } else {
                st.current
            };
            span_pieces(
                WrapState { lines: st.lines.push(line), current: seq![], current_width: 0 },
                rem.skip(k),
                style,
                width,
            )
        }
    }
}

/// The layout state after all the spans.
pub open spec fn spans_laid_out<S>(spans: Seq<(Seq<char>, S)>, width: int) -> WrapState<S>
    decreases spans.len(),
{
    if spans.len() == 0 {
        WrapState { lines: seq![], current: seq![], current_width: 0 }
    } else {
        span_pieces(spans_laid_out(spans.drop_last(), width), spans.last().0, spans.last().1, width)
    }
}

/// Sum of the display widths of the spans' texts.
pub open spec fn total_width<S>(spans: Seq<(Seq<char>, S)>) -> int
    decreases spans.len(),
{
    if spans.len() == 0 {
        0
    } else {
        total_width(spans.drop_last()) + unicode_str_width(spans.last().0)
    }
}

/// The lines of `wrap_spans`.
pub open spec fn spans_wrapped<S>(spans: Seq<(Seq<char>, S)>, width: int) -> Seq<Seq<(Seq<char>, S)>> {
    if width == 0 {
        seq![seq![]]
    } else if total_width(spans) <= width {
        seq![spans]
    } else {
        let st = spans_laid_out(spans, width);
        let lines = if st.current.len() > 0 {
            st.lines.push(st.current)
        } else {
            st.lines
        };
        if lines.len() == 0 {
            seq![seq![]]
        } else {
            lines
        }
    }
}

/// The texts of the spans, one after another.
pub open spec fn texts_joined<S>(spans: Seq<(Seq<char>, S)>) -> Seq<char>
    decreases spans.len(),
{
    if spans.len() == 0 {
        seq![]
    } else {
        texts_joined(spans.drop_last()) + spans.last().0
    }
}

/// The texts of all lines, one after another.
pub open spec fn lines_joined<S>(lines: Seq<Seq<(Seq<char>, S)>>) -> Seq<char>
    decreases lines.len(),
{
    if lines.len() == 0 {
        seq![]
    } else {
        lines_joined(lines.drop_last()) + texts_joined(lines.last())
    }
}

proof fn lemma_span_pieces_keep_text<S>(st: WrapState<S>, rem: Seq<char>, style: S, width: int)
    ensures
        lines_joined(span_pieces(st, rem, style, width).lines) + texts_joined(
            span_pieces(st, rem, style, width).current,
        ) == lines_joined(st.lines) + texts_joined(st.current) + rem,
    decreases rem.len(), if st.current.len() > 0 { 1int } else { 0int },
{
    if rem.len() == 0 {
        assert(lines_joined(st.lines) + texts_joined(st.current) + rem =~= lines_joined(st.lines)
            + texts_joined(st.current));
    } else {
        let rw = unicode_str_width(rem);
        let limit = if st.current.len() == 0 {
            width
        } else if width >= st.current_width {
            width - st.current_width
        } else {
            0
        };
        if rw <= limit {
            let c2 = st.current.push((rem, style));
            assert(c2.drop_last() == st.current);
            assert(lines_joined(st.lines) + texts_joined(c2) =~= lines_joined(st.lines) + texts_joined(
                st.current,
            ) + rem);
        } else {
            lemma_fit_from_range(rem, 0, 0, limit);
            let k0 = fit_len(rem, limit);
            let k = if k0 == 0 && st.current.len() == 0 {
                1
            } else {
                k0
            };
            let line = if k > 0 {
                st.current.push((rem.take(k), style))
            } else {
                st.current
            };
            let st2 = WrapState { lines: st.lines.push(line), current: seq![], current_width: 0 };
            lemma_span_pieces_keep_text(st2, rem.skip(k), style, width);
            assert(st2.lines.drop_last() == st.lines);
            if k > 0 {
                assert(line.drop_last() == st.current);
            }
            assert(texts_joined(line) =~= texts_joined(st.current) + rem.take(k));
            assert(rem =~= rem.take(k) + rem.skip(k));
            assert(lines_joined(st2.lines) + texts_joined(st2.current) + rem.skip(k) =~= lines_joined(
                st.lines,
            ) + texts_joined(st.current) + rem);
        }
    }
}

proof fn lemma_laid_out_keeps_text<S>(spans: Seq<(Seq<char>, S)>, width: int)
    ensures
        lines_joined(spans_laid_out(spans, width).lines) + texts_joined(spans_laid_out(spans, width).current)
            == texts_joined(spans),
    decreases spans.len(),
{
    if spans.len() > 0 {
        lemma_laid_out_keeps_text(spans.drop_last(), width);
        lemma_span_pieces_keep_text(spans_laid_out(spans.drop_last(), width), spans.last().0, spans.last().1, width);
    } else {
        assert(lines_joined(Seq::<Seq<(Seq<char>, S)>>::empty()) + texts_joined(Seq::<(Seq<char>, S)>::empty()) =~= Seq::<char>::empty());
    }
}

/// Wrapping loses and repeats no text: read one after another, the spans of
/// the wrapped lines hold exactly the text of the input spans.
pub proof fn lemma_wrap_spans_keeps_text<S>(spans: Seq<(Seq<char>, S)>, width: int)
    ensures
        lines_joined(spans_wrapped(spans, width)) == if width == 0 {
            Seq::<char>::empty()
        } else {
            texts_joined(spans)
        },
{
    let e = Seq::<(Seq<char>, S)>::empty();
    assert(seq![e].drop_last() =~= Seq::<Seq<(Seq<char>, S)>>::empty());
    assert(seq![e].last() == e);
    assert(texts_joined(e) =~= Seq::<char>::empty());
    assert(lines_joined(Seq::<Seq<(Seq<char>, S)>>::empty()) =~= Seq::<char>::empty());
    assert(lines_joined(seq![e]) =~= Seq::<char>::empty());
    if width != 0 {
        if total_width(spans) <= width {
            assert(seq![spans].drop_last() =~= Seq::<Seq<(Seq<char>, S)>>::empty());
            assert(lines_joined(seq![spans]) =~= texts_joined(spans));
        } else {
            lemma_laid_out_keeps_text(spans, width);
            let st = spans_laid_out(spans, width);
            if st.current.len() > 0 {
                assert(st.lines.push(st.current).drop_last() == st.lines);
            } else {
                assert(texts_joined(st.current) =~= Seq::<char>::empty());
                assert(lines_joined(st.lines) + Seq::<char>::empty() =~= lines_joined(st.lines));
            }
        }
    }
}

/// Whether the spans' total display width is at most `width`.
fn fits_whole<S>(spans: &Vec<(String, S)>, width: usize) -> (r: bool)
    ensures
        r == (total_width(spans_view(spans@)) <= width),
{
    let mut sum: usize = 0;
    let mut i: usize = 0;
    while i < spans.len()
        invariant
            i <= spans@.len(),
            sum <= width,
            sum == total_width(spans_view(spans@.take(i as int))),
        decreases spans@.len() - i,
    {
        proof {
            assert(spans_view(spans@.take(i + 1)).drop_last() =~= spans_view(spans@.take(i as int)));
        }
        let w = str_width(spans[i].0.as_str());
        if w > width - sum {
            proof {
                assert(spans_view(spans@).take(i + 1) =~= spans_view(spans@.take(i + 1)));
                lemma_total_width_grows(spans_view(spans@), i + 1);
                assert(spans_view(spans@).take(spans@.len() as int) =~= spans_view(spans@));
            }
            return false;
        }
        sum = sum + w;
        i = i + 1;
    }
    assert(spans@.take(spans@.len() as int) == spans@);
    true
}

proof fn lemma_total_width_grows<S>(spans: Seq<(Seq<char>, S)>, k: int)
    requires
        0 <= k <= spans.len(),
    ensures
        total_width(spans.take(k)) <= total_width(spans),
    decreases spans.len() - k,
{
    if k < spans.len() {
        lemma_total_width_grows(spans, k + 1);
        assert(spans.take(k + 1).drop_last() == spans.take(k));
    } else {
        assert(spans.take(k) == spans);
    }
}

/// Lay out one span's text onto the lines being built.
fn lay_out_span<S: Copy>(
    text: &String,
    style: S,
    width: usize,
    lines: &mut Vec<Vec<(String, S)>>,
    current: &mut Vec<(String, S)>,
    current_width: &mut usize,
)
    requires
        width > 0,
        *old(current_width) <= width,
        old(current)@.len() == 0 ==> *old(current_width) == 0,
    ensures
        *final(current_width) <= width,
        final(current)@.len() == 0 ==> *final(current_width) == 0,
        (WrapState {
            lines: lines_view(final(lines)@),
            current: spans_view(final(current)@),
            current_width: *final(current_width) as int,
        }) == span_pieces(
            WrapState {
                lines: lines_view(old(lines)@),
                current: spans_view(old(current)@),
                current_width: *old(current_width) as int,
            },
            text@,
            style,
            width as int,
        ),
{
    let cs = str_chars(text.as_str());
    let n = cs.len();
    let mut pos: usize = 0;
    assert(cs@.skip(0) == text@);
    while pos < n
        invariant
            n == cs@.len(),
            pos <= n,
            width > 0,
            *current_width <= width,
            current@.len() == 0 ==> *current_width == 0,
            span_pieces(
                WrapState {
                    lines: lines_view(lines@),
                    current: spans_view(current@),
                    current_width: *current_width as int,
                },
                cs@.skip(pos as int),
                style,
                width as int,
            ) == span_pieces(
                WrapState {
                    lines: lines_view(old(lines)@),
                    current: spans_view(old(current)@),
                    current_width: *old(current_width) as int,
                },
                text@,
                style,
                width as int,
            ),
        decreases n - pos, if current@.len() > 0 { 1int } else { 0int },
    {
        let ghost rem = cs@.skip(pos as int);
        let ghost st = WrapState {
            lines: lines_view(lines@),
            current: spans_view(current@),
            current_width: *current_width as int,
        };
        let remaining = string_from_char_range(cs.as_slice(), pos, n);
        assert(remaining@ == rem);
        let rw = str_width(remaining.as_str());
        let limit = if current.len() == 0 {
            width
        } else {
            width - *current_width
        };
        if rw <= limit {
            let ghost cur0 = spans_view(current@);
            current.push((remaining, style));
            assert(spans_view(current@) =~= cur0.push((rem, style)));
            *current_width = *current_width + rw;
            pos = n;
            assert(cs@.skip(n as int).len() == 0);
        } else {
            let mut end = fit(&cs, pos, limit);
            proof {
                lemma_fit_from_range(rem, 0, 0, limit as int);
            }
            if end == pos && current.len() == 0 {
                end = pos + 1;
            }
            if end > pos {
                let part = string_from_char_range(cs.as_slice(), pos, end);
                assert(part@ == rem.take(end - pos));
                let ghost cur0 = spans_view(current@);
                current.push((part, style));
                assert(spans_view(current@) =~= cur0.push((rem.take(end - pos), style)));
            }
            assert(rem.skip(end - pos) =~= cs@.skip(end as int));
            let mut line: Vec<(String, S)> = Vec::new();
            std::mem::swap(&mut line, current);
            let ghost lines0 = lines_view(lines@);
            lines.push(line);
            assert(lines_view(lines@) =~= lines0.push(spans_view(line@)));
            assert(spans_view(current@) =~= Seq::<(Seq<char>, S)>::empty());
            *current_width = 0;
            pos = end;
        }
    }
}

/// Wrap styled spans to fit within the available width. Each line is the
/// list of its spans; an empty list is an empty line.
pub fn wrap_spans<S: Copy>(spans: Vec<(String, S)>, available_width: usize) -> (r: Vec<Vec<(String, S)>>)
    ensures
        lines_view(r@) == spans_wrapped(spans_view(spans@), available_width as int),
{
    if available_width == 0 {
        let mut r: Vec<Vec<(String, S)>> = Vec::new();
        r.push(Vec::new());
        assert(lines_view(r@)[0] =~= Seq::<(Seq<char>, S)>::empty());
        assert(lines_view(r@) =~= seq![Seq::<(Seq<char>, S)>::empty()]);
        return r;
    }
    if fits_whole(&spans, available_width) {
        let ghost v = spans_view(spans@);
        let mut r: Vec<Vec<(String, S)>> = Vec::new();
        r.push(spans);
        assert(lines_view(r@) =~= seq![v]);
        return r;
    }
    let mut lines: Vec<Vec<(String, S)>> = Vec::new();
    let mut current: Vec<(String, S)> = Vec::new();
    let mut current_width: usize = 0;
    let mut i: usize = 0;
    assert(lines_view(lines@) =~= Seq::<Seq<(Seq<char>, S)>>::empty());
    assert(spans_view(current@) =~= Seq::<(Seq<char>, S)>::empty());
    while i < spans.len()
        invariant
            available_width > 0,
            i <= spans@.len(),
            current_width <= available_width,
            current@.len() == 0 ==> current_width == 0,
            (WrapState {
                lines: lines_view(lines@),
                current: spans_view(current@),
                current_width: current_width as int,
            }) == spans_laid_out(spans_view(spans@.take(i as int)), available_width as int),
        decreases spans@.len() - i,
    {
        proof {
            assert(spans_view(spans@.take(i + 1)).drop_last() =~= spans_view(spans@.take(i as int)));
            assert(spans_view(spans@.take(i + 1)).last() == span_view(spans@[i as int]));
        }
        lay_out_span(&spans[i].0, spans[i].1, available_width, &mut lines, &mut current, &mut current_width);
        i = i + 1;
    }
    assert(spans@.take(spans@.len() as int) == spans@);
    if current.len() > 0 {
        let ghost l0 = lines_view(lines@);
        let ghost c0 = spans_view(current@);
        lines.push(current);
        assert(lines_view(lines@) =~= l0.push(c0));
    }
    if lines.len() == 0 {
        let mut r: Vec<Vec<(String, S)>> = Vec::new();
        r.push(Vec::new());
        assert(lines_view(r@)[0] =~= Seq::<(Seq<char>, S)>::empty());
        assert(lines_view(r@) =~= seq![Seq::<(Seq<char>, S)>::empty()]);
        return r;
    }
    lines
}

/// The style of a span in plain values, as `ratatui` holds it: the names of
/// its foreground and background colors as `ratatui` writes them (`"Red"`,
/// `"#1A2B3C"`, `"42"` for an indexed color) and the modifier bits it adds
/// and removes.
#[derive(Debug, Clone, PartialEq, Eq)]
pub struct SpanStyle {
    pub fg: Option<String>,
    pub bg: Option<String>,
    pub add_modifier: u16,
    pub sub_modifier: u16,
}

pub open spec fn opt_text(o: Option<String>) -> Option<Seq<char>> {
    match o {
        Some(t) => Some(t@),
        None => None,
    }
}

/// A span style as the contracts read it.
pub open spec fn style_view(st: SpanStyle) -> (Option<Seq<char>>, Option<Seq<char>>, u16, u16) {
    (opt_text(st.fg), opt_text(st.bg), st.add_modifier, st.sub_modifier)
}

pub open spec fn styled_lines_view(v: Seq<Vec<(String, SpanStyle)>>) -> Seq<
    Seq<(Seq<char>, (Option<Seq<char>>, Option<Seq<char>>, u16, u16))>,
> {
    v.map_values(
        |l: Vec<(String, SpanStyle)>| l@.map_values(|sp: (String, SpanStyle)| (sp.0@, style_view(sp.1))),
    )
}

/// The lines that `ansi_to_tui` parses out of ANSI-coded text, each as its
/// spans: text and style.
pub uninterp spec fn ansi_styled_lines(s: Seq<char>) -> Seq<
    Seq<(Seq<char>, (Option<Seq<char>>, Option<Seq<char>>, u16, u16))>,
>;

/// The spans of the first parsed line (none for no line).
pub open spec fn first_line<S>(lines: Seq<Seq<(Seq<char>, S)>>) -> Seq<(Seq<char>, S)> {
    if lines.len() > 0 {
        lines[0]
    } else {
        seq![]
    }
}

/// The spans with each style replaced by the span's position.
pub open spec fn indexed_spans<S>(spans: Seq<(Seq<char>, S)>) -> Seq<(Seq<char>, usize)> {
    Seq::new(spans.len(), |k: int| (spans[k].0, k as usize))
}

/// `ansi_to_tui::IntoText::into_text`: ANSI-coded text parsed into lines of
/// styled spans, each line taken as its spans, each style as a `SpanStyle`
/// (the whole named `ansi_styled_lines`). The parser of the version used
/// always returns `Ok`, so the error arm is never taken.
#[verifier::external_body]
fn ansi_lines(content: &str) -> (r: Vec<Vec<(String, SpanStyle)>>)
    ensures
        styled_lines_view(r@) == ansi_styled_lines(content@),
{
    match ansi_to_tui::IntoText::into_text(&content) {
        Ok(text) => text.lines.iter().map(|l| l.spans.iter().map(|s| (s.content.to_string(), SpanStyle {
            fg: s.style.fg.map(|c| c.to_string()),
            bg: s.style.bg.map(|c| c.to_string()),
            add_modifier: s.style.add_modifier.bits(),
            sub_modifier: s.style.sub_modifier.bits(),
        })).collect()).collect(),
        Err(_) => Vec::new(),
    }
}

/// Wrap ANSI-coded content to the width, keeping the styles its escape
/// sequences give. The spans of the first parsed line are wrapped as
/// `wrap_spans` wraps them; each piece carries the position of the span it
/// comes from in the returned style list, which holds the spans' styles.
pub fn wrap_content(content: &str, available_width: usize) -> (r: (Vec<Vec<(String, usize)>>, Vec<SpanStyle>))
    ensures
        ({
            let fl = first_line(ansi_styled_lines(content@));
            &&& r.1@.len() == fl.len()
            &&& forall|k: int| 0 <= k < fl.len() ==> #[trigger] style_view(r.1@[k]) == fl[k].1
            &&& lines_view(r.0@) == spans_wrapped(indexed_spans(fl), available_width as int)
            &&& lines_joined(lines_view(r.0@)) == if available_width == 0 {
                Seq::<char>::empty()
            } else {
                texts_joined(indexed_spans(fl))
            }
        }),
{
    let mut lines = ansi_lines(content);
    let ghost parsed = styled_lines_view(lines@);
    let mut first: Vec<(String, SpanStyle)> = if lines.len() > 0 {
        lines.remove(0)
    } else {
        Vec::new()
    };
    let ghost fl = first_line(parsed);
    proof {
        if parsed.len() > 0 {
            assert(first@.map_values(|sp: (String, SpanStyle)| (sp.0@, style_view(sp.1))) == fl);
        } else {
            assert(first@.map_values(|sp: (String, SpanStyle)| (sp.0@, style_view(sp.1))) =~= fl);
        }
    }
    let ghost all = first@;
    let n = first.len();
    let mut spans: Vec<(String, usize)> = Vec::new();
    let mut styles: Vec<SpanStyle> = Vec::new();
    let mut k: usize = 0;
    while k < n
        invariant
            n == all.len(),
            n == fl.len(),
            k <= n,
            first@ == all.skip(k as int),
            forall|j: int| 0 <= j < n ==> (#[trigger] all[j]).0@ == fl[j].0 && style_view(all[j].1) == fl[j].1,
            spans_view(spans@) == indexed_spans(fl).take(k as int),
            styles@.len() == k,
            forall|j: int| 0 <= j < k ==> #[trigger] style_view(styles@[j]) == fl[j].1,
        decreases n - k,
    {
        let (text, style) = first.remove(0);
        proof {
            assert(all[k as int] == (text, style));
            assert(text@ == fl[k as int].0);
        }
        let ghost before = spans_view(spans@);
        spans.push((text, k));
        styles.push(style);
        proof {
            assert(first@ =~= all.skip(k + 1));
            assert(spans_view(spans@) =~= before.push(span_view(spans@[k as int])));
            assert(indexed_spans(fl)[k as int] == (fl[k as int].0, k));
            assert(indexed_spans(fl).take(k + 1) =~= indexed_spans(fl).take(k as int).push(indexed_spans(fl)[k as int]));
        }
        k = k + 1;
    }
    proof {
        assert(indexed_spans(fl).take(n as int) =~= indexed_spans(fl));
        lemma_wrap_spans_keeps_text(indexed_spans(fl), available_width as int);
    }
    (wrap_spans(spans, available_width), styles)
}

/// Expand tabs to spaces: a tab moves to the next multiple of 4 columns,
/// every other character takes one column.
pub open spec fn expanded_from(s: Seq<char>, column: int) -> Seq<char>
    decreases s.len(),
{
    if s.len() == 0 {
        seq![]
    } else if s[0] == '\t' {
        let spaces = 4 - column % 4;
        Seq::new(spaces as nat, |i: int| ' ') + expanded_from(s.drop_first(), column + spaces)
    } else {
        seq![s[0]] + expanded_from(s.drop_first(), column + 1)
    }
}

/// Expand tabs to spaces for proper rendering.
pub fn expand_tabs(line: &str) -> (r: String)
    ensures
        r@ == expanded_from(line@, 0),
{
    let cs = str_chars(line);
    let mut out: Vec<char> = Vec::new();
    let ghost mut column: int = 0;
    let mut col4: usize = 0;
    let mut i: usize = 0;
    assert(cs@.skip(0) == cs@);
    assert(out@ + expanded_from(cs@, 0) =~= expanded_from(cs@, 0));
    while i < cs.len()
        invariant
            cs@ == line@,
            i <= cs@.len(),
            column >= 0,
            col4 == column % 4,
            out@ + expanded_from(cs@.skip(i as int), column) == expanded_from(line@, 0),
        decreases cs@.len() - i,
    {
        let ghost rest = cs@.skip(i as int);
        let ghost before = out@;
        let ghost col0 = column;
        assert(rest.drop_first() == cs@.skip(i + 1));
        assert(rest[0] == cs@[i as int]);
        if cs[i] == '\t' {
            let spaces = 4 - col4;
            let mut k: usize = 0;
            while k < spaces
                invariant
                    k <= spaces,
                    out@ == before + Seq::new(k as nat, |j: int| ' '),
                decreases spaces - k,
            {
                out.push(' ');
                k = k + 1;
                assert(out@ =~= before + Seq::new(k as nat, |j: int| ' '));
            }
            proof {
                column = column + spaces;
            }
            col4 = 0;
        } else {
            out.push(cs[i]);
            proof {
                column = column + 1;
            }
            col4 = (col4 + 1) % 4;
        }
        i = i + 1;
        assert(out@ + expanded_from(cs@.skip(i as int), column) =~= before + expanded_from(rest, col0));
    }
    assert(cs@.skip(cs@.len() as int).len() == 0);
    assert(out@ + Seq::<char>::empty() == out@);
    string_from_chars(out.as_slice())
}

} // verus!
