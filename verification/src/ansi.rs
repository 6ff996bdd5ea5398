//! Removal of terminal escape sequences (ANSI/VT control sequences) from text.
//!
//! Recognised sequences, each introduced by ESC (0x1b):
//! - CSI: `ESC [` parameters, ended by a final character in `0x40..=0x7e`
//!   (colours, cursor movement, erase);
//! - OSC: `ESC ]` payload, ended by BEL (0x07) or by ST (`ESC \`), as used by
//!   hyperlinks and window titles;
//! - character set designators: `ESC (` or `ESC )` and one more character;
//! - any other escape: ESC and the one character after it.
//! A sequence left unterminated at the end of the text is dropped with the
//! rest of the text.
use crate::text::{str_chars, string_from_chars};
use vstd::prelude::*;

verus! {

pub open spec fn esc() -> char {
    '\u{1b}'
}

pub open spec fn bel() -> char {
    '\u{7}'
}

/// A character that ends a CSI sequence.
pub open spec fn is_csi_final(c: char) -> bool {
    0x40 <= (c as u32) && (c as u32) <= 0x7e
}

/// Position of the first CSI final character at or after `j` (`s.len()` when
/// there is none).
pub open spec fn csi_end(s: Seq<char>, j: int) -> int
    decreases s.len() - j,
{
    if j >= s.len() {
        s.len() as int
    } else if is_csi_final(s[j]) {
        j
    } else {
        csi_end(s, j + 1)
    }
}

/// Position of the first OSC terminator (BEL, or ESC followed by `\`) at or
/// after `j` (`s.len()` when there is none).
pub open spec fn osc_end(s: Seq<char>, j: int) -> int
    decreases s.len() - j,
{
    if j >= s.len() {
        s.len() as int
    } else if s[j] == bel() {
        j
    } else if s[j] == esc() && j + 1 < s.len() && s[j + 1] == '\\' {
        j
    } else {
        osc_end(s, j + 1)
    }
}

/// Where the text resumes after an OSC payload starting at `j`.
pub open spec fn osc_resume(s: Seq<char>, j: int) -> int {
    let k = osc_end(s, j);
    if k >= s.len() {
        s.len() as int
    } else if s[k] == bel() {
        k + 1
    } else {
        k + 2
    }
}

pub proof fn lemma_csi_end_range(s: Seq<char>, j: int)
    requires
        0 <= j,
    ensures
        j <= csi_end(s, j) <= s.len() || (j > s.len() && csi_end(s, j) == s.len()),
    decreases s.len() - j,
{
    if j < s.len() && !is_csi_final(s[j]) {
        lemma_csi_end_range(s, j + 1);
    }
}

pub proof fn lemma_osc_end_range(s: Seq<char>, j: int)
    requires
        0 <= j,
    ensures
        j <= osc_end(s, j) <= s.len() || (j > s.len() && osc_end(s, j) == s.len()),
        osc_end(s, j) < s.len() ==> (s[osc_end(s, j)] == bel() || (s[osc_end(s, j)] == esc()
            && osc_end(s, j) + 1 < s.len())),
    decreases s.len() - j,
{
    if j < s.len() && s[j] != bel() && !(s[j] == esc() && j + 1 < s.len() && s[j + 1] == '\\') {
        lemma_osc_end_range(s, j + 1);
    }
}

/// The text of `s` from position `i` on, with escape sequences removed.
pub open spec fn strip_from(s: Seq<char>, i: int) -> Seq<char>
    decreases s.len() + 1 - i,
    when 0 <= i
{
    if i >= s.len() {
        seq![]
    } else if s[i] != esc() {
        seq![s[i]] + strip_from(s, i + 1)
    } else if i + 1 >= s.len() {
        seq![]
    } else if s[i + 1] == '[' {
        proof {
            lemma_csi_end_range(s, i + 2);
        }
        strip_from(s, csi_end(s, i + 2) + 1)
    } else if s[i + 1] == ']' {
        proof {
            lemma_osc_end_range(s, i + 2);
        }
        strip_from(s, osc_resume(s, i + 2))
    } else if s[i + 1] == '(' || s[i + 1] == ')' {
        strip_from(s, i + 3)
    } else {
        strip_from(s, i + 2)
    }
}

/// No character of `t` is ESC.
pub open spec fn escape_free(t: Seq<char>) -> bool {
    forall|k: int| 0 <= k < t.len() ==> t[k] != esc()
}

/// The characters of an SGR parameter list: ESC-free, and none of them ends
/// a CSI sequence (digits and `;` qualify).
pub open spec fn csi_params(p: Seq<char>) -> bool {
    forall|k: int| 0 <= k < p.len() ==> p[k] != esc() && !is_csi_final(p[k])
}

/// ESC-free text at position `i` is kept as it is.
pub proof fn lemma_strip_plain(s: Seq<char>, i: int, t: Seq<char>)
    requires
        0 <= i,
        i + t.len() <= s.len(),
        s.subrange(i, i + t.len()) == t,
        escape_free(t),
    ensures
        strip_from(s, i) == t + strip_from(s, i + t.len()),
    decreases t.len(),
{
    if t.len() > 0 {
        assert(s[i] == t[0]);
        assert(s.subrange(i + 1, i + t.len()) =~= t.drop_first());
        lemma_strip_plain(s, i + 1, t.drop_first());
        assert(seq![t[0]] + t.drop_first() =~= t);
    } else {
        assert(t =~= Seq::<char>::empty());
    }
}

proof fn lemma_csi_end_past(s: Seq<char>, j: int, e: int)
    requires
        0 <= j <= e < s.len(),
        is_csi_final(s[e]),
        forall|k: int| j <= k < e ==> !is_csi_final(#[trigger] s[k]),
    ensures
        csi_end(s, j) == e,
    decreases e - j,
{
    if j < e {
        lemma_csi_end_past(s, j + 1, e);
    }
}

/// A complete CSI sequence `ESC [ p m` at position `i` is dropped.
pub proof fn lemma_strip_csi(s: Seq<char>, i: int, p: Seq<char>)
    requires
        0 <= i,
        i + 3 + p.len() <= s.len(),
        s[i] == esc(),
        s[i + 1] == '[',
        s.subrange(i + 2, i + 2 + p.len()) == p,
        s[i + 2 + p.len()] == 'm',
        csi_params(p),
    ensures
        strip_from(s, i) == strip_from(s, i + 3 + p.len()),
{
    assert forall|k: int| i + 2 <= k < i + 2 + p.len() implies !is_csi_final(#[trigger] s[k]) by {
        assert(s[k] == p[k - (i + 2)]);
    }
    lemma_csi_end_past(s, i + 2, i + 2 + p.len());
}

/// `s` with all escape sequences removed.
pub open spec fn ansi_stripped(s: Seq<char>) -> Seq<char> {
    strip_from(s, 0)
}

proof fn lemma_strip_from_escape_free(s: Seq<char>, i: int)
    requires
        0 <= i,
    ensures
        escape_free(strip_from(s, i)),
    decreases s.len() + 1 - i,
{
    if i < s.len() {
        if s[i] != esc() {
            lemma_strip_from_escape_free(s, i + 1);
        } else if i + 1 < s.len() {
            if s[i + 1] == '[' {
                lemma_csi_end_range(s, i + 2);
                lemma_strip_from_escape_free(s, csi_end(s, i + 2) + 1);
            } else if s[i + 1] == ']' {
                lemma_osc_end_range(s, i + 2);
                lemma_strip_from_escape_free(s, osc_resume(s, i + 2));
            } else if s[i + 1] == '(' || s[i + 1] == ')' {
                lemma_strip_from_escape_free(s, i + 3);
            } else {
                lemma_strip_from_escape_free(s, i + 2);
            }
        }
    }
}

/// Stripping is idempotent: stripped text holds no ESC character, so
/// stripping it again changes nothing.
pub proof fn lemma_strip_idempotent(s: Seq<char>)
    ensures
        escape_free(ansi_stripped(s)),
        ansi_stripped(ansi_stripped(s)) == ansi_stripped(s),
{
    let t = ansi_stripped(s);
    lemma_strip_from_escape_free(s, 0);
    assert(t.subrange(0, t.len() as int) =~= t);
    lemma_strip_plain(t, 0, t);
    assert(t + strip_from(t, t.len() as int) =~= t);
}

fn find_csi_end(cs: &Vec<char>, j: usize) -> (k: usize)
    requires
        j <= cs@.len(),
    ensures
        k == csi_end(cs@, j as int),
{
    let mut k = j;
    while k < cs.len() && !(0x40u32 <= (cs[k] as u32) && (cs[k] as u32) <= 0x7eu32)
        invariant
            j <= k <= cs@.len(),
            csi_end(cs@, k as int) == csi_end(cs@, j as int),
        decreases cs@.len() - k,
    {
        k = k + 1;
    }
    k
}

fn find_osc_end(cs: &Vec<char>, j: usize) -> (k: usize)
    requires
        j <= cs@.len(),
    ensures
        k == osc_end(cs@, j as int),
{
    let mut k = j;
    while k < cs.len() && cs[k] != '\u{7}' && !(cs[k] == '\u{1b}' && k + 1 < cs.len() && cs[k + 1] == '\\')
        invariant
            j <= k <= cs@.len(),
            osc_end(cs@, k as int) == osc_end(cs@, j as int),
        decreases cs@.len() - k,
    {
        k = k + 1;
    }
    k
}

/// Remove ANSI escape sequences from `s`, keeping all other characters in order.
pub fn strip_ansi(s: &str) -> (r: String)
    ensures
        r@ == ansi_stripped(s@),
{
    let cs = str_chars(s);
    let n = cs.len();
    let mut out: Vec<char> = Vec::new();
    let mut i: usize = 0;
    while i < n
        invariant
            n == cs@.len(),
            cs@ == s@,
            i <= n,
            out@ + strip_from(cs@, i as int) == strip_from(cs@, 0),
        decreases n - i,
    {
        let c = cs[i];
        if c != '\u{1b}' {
            let ghost before = out@;
            out.push(c);
            i = i + 1;
            proof {
                assert(strip_from(cs@, (i - 1) as int) == seq![c] + strip_from(cs@, i as int));
                assert(out@ + strip_from(cs@, i as int) =~= before + strip_from(cs@, (i - 1) as int));
            }
        } else {
            let ghost i0 = i as int;
            if i + 1 >= n {
                i = n;
            } else {
                let d = cs[i + 1];
                if d == '[' {
                    let k = find_csi_end(&cs, i + 2);
                    proof {
                        lemma_csi_end_range(cs@, (i + 2) as int);
                    }
                    i = if k >= n { n } else { k + 1 };
                    assert(strip_from(cs@, i0) == strip_from(cs@, k + 1));
                } else if d == ']' {
                    let k = find_osc_end(&cs, i + 2);
                    proof {
                        lemma_osc_end_range(cs@, (i + 2) as int);
                    }
                    i = if k >= n {
                        n
                    } else if cs[k] == '\u{7}' {
                        k + 1
                    } else {
                        k + 2
                    };
                    assert(strip_from(cs@, i0) == strip_from(cs@, osc_resume(cs@, i0 + 2)));
                } else if d == '(' || d == ')' {
                    i = if n - i <= 3 { n } else { i + 3 };
                    assert(strip_from(cs@, i0) == strip_from(cs@, i0 + 3));
                } else {
                    i = i + 2;
                }
            }
            assert(strip_from(cs@, i0) == strip_from(cs@, i as int));
        }
    }
    string_from_chars(out.as_slice())
}

} // verus!
