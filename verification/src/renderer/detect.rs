//! Detection rules that match presets to sources: file name globs and the
//! parser that the index recorded for a source.
use super::preset::{CompiledPreset, PresetParser};
use crate::index::flags::{FLAG_FORMAT_JSON, FLAG_FORMAT_LOGFMT};
use crate::text::str_chars;
use vstd::prelude::*;

verus! {

/// Compiled detection rules for auto-matching presets to sources.
#[derive(Debug)]
pub struct CompiledDetect {
    pub filename_pattern: Option<String>,
    pub parser: Option<PresetParser>,
}

/// Glob matching of `p[i..]` against `f[j..]`: `*` matches any run of
/// characters (also an empty one), `?` exactly one character, any other
/// character itself.
pub open spec fn glob_from(p: Seq<char>, f: Seq<char>, i: int, j: int) -> bool
    decreases p.len() - i, f.len() + 1 - j, 1int,
{
    if i >= p.len() {
        j >= f.len()
    } else if p[i] == '*' {
        if i + 1 >= p.len() {
            true
        } else {
            star_from(p, f, i, j)
        }
    } else if j >= f.len() {
        false
    } else if p[i] == '?' || p[i] == f[j] {
        glob_from(p, f, i + 1, j + 1)
    } else {
        false
    }
}

/// Whether the rest of the pattern after the `*` at `p[i]` matches some
/// suffix `f[k..]` with `k` at or after `j`.
pub open spec fn star_from(p: Seq<char>, f: Seq<char>, i: int, k: int) -> bool
    decreases p.len() - i, f.len() + 1 - k, 0int,
{
    if i >= p.len() || k > f.len() {
        false
    } else {
        glob_from(p, f, i + 1, k) || (k < f.len() && star_from(p, f, i, k + 1))
    }
}

/// Whether `filename` matches the glob `pattern`.
pub open spec fn glob_matches(pattern: Seq<char>, filename: Seq<char>) -> bool {
    glob_from(pattern, filename, 0, 0)
}

fn glob_exec(p: &Vec<char>, f: &Vec<char>, i: usize, j: usize) -> (r: bool)
    requires
        i <= p@.len(),
        j <= f@.len(),
    ensures
        r == glob_from(p@, f@, i as int, j as int),
    decreases p@.len() - i, f@.len() - j,
{
    if i == p.len() {
        return j == f.len();
    }
    if p[i] == '*' {
        if i + 1 == p.len() {
            return true;
        }
        let i1 = i + 1;
        let mut k: usize = j;
        loop
            invariant
                j <= k <= f@.len(),
                i < p@.len(),
                i1 == i + 1,
                i + 1 < p@.len(),
                p@[i as int] == '*',
                star_from(p@, f@, i as int, j as int) == star_from(p@, f@, i as int, k as int),
            decreases f@.len() - k,
        {
            if glob_exec(p, f, i1, k) {
                return true;
            }
            if k == f.len() {
                return false;
            }
            k = k + 1;
        }
    }
    if j == f.len() {
        return false;
    }
    if p[i] == '?' || p[i] == f[j] {
        glob_exec(p, f, i + 1, j + 1)
    } else {
        false
    }
}

/// Simple glob matching — `*` matches any chars, `?` matches single char.
pub fn matches_filename(pattern: &str, filename: &str) -> (r: bool)
    ensures
        r == glob_matches(pattern@, filename@),
{
    let p = str_chars(pattern);
    let f = str_chars(filename);
    glob_exec(&p, &f, 0, 0)
}

/// Whether a preset's detection rules name a file pattern that matches.
pub open spec fn filename_hit(p: CompiledPreset, filename: Seq<char>) -> bool {
    p.detect matches Some(d) && d.filename_pattern matches Some(pat) && glob_matches(pat@, filename)
}

/// Whether a preset's detection rules name a parser whose format flag is set.
pub open spec fn flags_hit(p: CompiledPreset, f: u32) -> bool {
    p.detect matches Some(d) && match d.parser {
        Some(PresetParser::Json) => f & FLAG_FORMAT_JSON != 0,
        Some(PresetParser::Logfmt) => f & FLAG_FORMAT_LOGFMT != 0,
        _ => false,
    }
}

/// Positions of the presets, in order, whose file pattern matches `f`.
pub open spec fn name_positions(presets: Seq<CompiledPreset>, f: Seq<char>) -> Seq<int>
    decreases presets.len(),
{
    if presets.len() == 0 {
        seq![]
    } else if filename_hit(presets.last(), f) {
        name_positions(presets.drop_last(), f).push(presets.len() - 1)
    } else {
        name_positions(presets.drop_last(), f)
    }
}

/// Positions of the presets, in order, whose parser's format the flags show.
pub open spec fn flag_positions(presets: Seq<CompiledPreset>, flags: u32) -> Seq<int>
    decreases presets.len(),
{
    if presets.len() == 0 {
        seq![]
    } else if flags_hit(presets.last(), flags) {
        flag_positions(presets.drop_last(), flags).push(presets.len() - 1)
    } else {
        flag_positions(presets.drop_last(), flags)
    }
}

/// Positions of the detected presets: those whose file pattern matches the
/// file name; when there are none, those whose parser's format the flags
/// show.
pub open spec fn detected_positions(presets: Seq<CompiledPreset>, filename: Option<Seq<char>>, flags: Option<u32>) -> Seq<int> {
    let by_name = match filename {
        Some(f) => name_positions(presets, f),
        None => seq![],
    };
    if by_name.len() > 0 {
        by_name
    } else {
        match flags {
            Some(f) => flag_positions(presets, f),
            None => seq![],
        }
    }
}

proof fn lemma_positions_range(presets: Seq<CompiledPreset>, f: Seq<char>, flags: u32)
    ensures
        forall|j: int| 0 <= j < name_positions(presets, f).len() ==> 0 <= #[trigger] name_positions(presets, f)[j] < presets.len(),
        forall|j: int| 0 <= j < flag_positions(presets, flags).len() ==> 0 <= #[trigger] flag_positions(presets, flags)[j] < presets.len(),
    decreases presets.len(),
{
    if presets.len() > 0 {
        let d = presets.drop_last();
        lemma_positions_range(d, f, flags);
        let a = name_positions(d, f);
        let b = flag_positions(d, flags);
        assert forall|j: int| 0 <= j < name_positions(presets, f).len() implies 0 <= #[trigger] name_positions(presets, f)[j] < presets.len() by {
            if j < a.len() {
                assert(name_positions(presets, f)[j] == a[j]);
            }
        }
        assert forall|j: int| 0 <= j < flag_positions(presets, flags).len() implies 0 <= #[trigger] flag_positions(presets, flags)[j] < presets.len() by {
            if j < b.len() {
                assert(flag_positions(presets, flags)[j] == b[j]);
            }
        }
    }
}

fn filename_matches(p: &CompiledPreset, fname: &str) -> (r: bool)
    ensures
        r == filename_hit(*p, fname@),
{
    match &p.detect {
        Some(d) => match &d.filename_pattern {
            Some(pattern) => matches_filename(pattern.as_str(), fname),
            None => false,
        },
        None => false,
    }
}

fn flags_match(p: &CompiledPreset, f: u32) -> (r: bool)
    ensures
        r == flags_hit(*p, f),
{
    match &p.detect {
        Some(d) => match d.parser {
            Some(PresetParser::Json) => f & FLAG_FORMAT_JSON != 0,
            Some(PresetParser::Logfmt) => f & FLAG_FORMAT_LOGFMT != 0,
            _ => false,
        },
        None => false,
    }
}

/// Returns presets whose detect rule matches the given filename and/or flags.
pub fn detect_presets<'a>(presets: &'a [CompiledPreset], filename: Option<&str>, flags: Option<u32>) -> (r: Vec<&'a CompiledPreset>)
    ensures
        r@.len() == detected_positions(presets@, opt_text(filename), flags).len(),
        forall|j: int|
            0 <= j < r@.len() ==> *r@[j] == presets@[#[trigger] detected_positions(presets@, opt_text(filename), flags)[j]],
{
    let mut results: Vec<&'a CompiledPreset> = Vec::new();
    if let Some(fname) = filename {
        let mut i: usize = 0;
        assert(presets@.take(0) =~= Seq::<CompiledPreset>::empty());
        while i < presets.len()
            invariant
                i <= presets@.len(),
                results@.len() == name_positions(presets@.take(i as int), fname@).len(),
                forall|j: int|
                    0 <= j < results@.len() ==> *results@[j] == presets@[#[trigger] name_positions(
                        presets@.take(i as int),
                        fname@,
                    )[j]],
            decreases presets@.len() - i,
        {
            assert(presets@.take(i + 1).drop_last() == presets@.take(i as int));
            assert(presets@.take(i + 1).last() == presets@[i as int]);
            proof {
                lemma_positions_range(presets@.take(i as int), fname@, 0);
            }
            if filename_matches(&presets[i], fname) {
                results.push(&presets[i]);
            }
            i = i + 1;
        }
        assert(presets@.take(presets@.len() as int) == presets@);
    }
    if results.len() > 0 {
        return results;
    }
    if let Some(f) = flags {
        let mut i: usize = 0;
        assert(presets@.take(0) =~= Seq::<CompiledPreset>::empty());
        while i < presets.len()
            invariant
                i <= presets@.len(),
                results@.len() == flag_positions(presets@.take(i as int), f).len(),
                forall|j: int|
                    0 <= j < results@.len() ==> *results@[j] == presets@[#[trigger] flag_positions(
                        presets@.take(i as int),
                        f,
                    )[j]],
            decreases presets@.len() - i,
        {
            assert(presets@.take(i + 1).drop_last() == presets@.take(i as int));
            assert(presets@.take(i + 1).last() == presets@[i as int]);
            proof {
                lemma_positions_range(presets@.take(i as int), Seq::empty(), f);
            }
            if flags_match(&presets[i], f) {
                results.push(&presets[i]);
            }
            i = i + 1;
        }
        assert(presets@.take(presets@.len() as int) == presets@);
    }
    results
}

pub open spec fn opt_text(o: Option<&str>) -> Option<Seq<char>> {
    match o {
        Some(s) => Some(s@),
        None => None,
    }
}

} // verus!
