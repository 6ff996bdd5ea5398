//! Regular expressions kept together with the pattern text they were
//! compiled from, so that what they match can be stated of the pattern.
use vstd::prelude::*;

verus! {

#[verifier::external_type_specification]
#[verifier::external_body]
pub struct ExRegex(regex::Regex);

/// Whether the `regex` crate compiles the pattern.
pub uninterp spec fn regex_accepts(pattern: Seq<char>) -> bool;

/// The message of the error `Regex::new` gives for a pattern it refuses (the
/// error's `Display`).
pub uninterp spec fn regex_error_message(pattern: Seq<char>) -> Seq<char>;

/// What `Regex::captures` gives on a line for the regex compiled from a
/// pattern: for each capture group in order, its name (for named groups)
/// and the text it matched (when it took part); `None` when the regex does
/// not match.
pub uninterp spec fn regex_captures_of(pattern: Seq<char>, line: Seq<char>) -> Option<
    Seq<(Option<Seq<char>>, Option<Seq<char>>)>,
>;

/// A compiled regular expression and the pattern it was compiled from. Only
/// `regex_new` makes one, so the two always belong together.
#[derive(Debug)]
pub struct PatternRegex {
    regex: regex::Regex,
    pattern: String,
}

impl PatternRegex {
    /// The pattern the regex was compiled from.
    pub closed spec fn pattern(&self) -> Seq<char> {
        self.pattern@
    }

    /// Compile a pattern; `None` when the `regex` crate refuses it.
    pub fn compile(pattern: &str) -> (r: Option<PatternRegex>)
        ensures
            r is Some == regex_accepts(pattern@),
            r matches Some(p) ==> p.pattern() == pattern@,
    {
        match regex_new(pattern) {
            Ok(p) => Some(p),
            Err(_) => None,
        }
    }
}

/// `Regex::new`: `Ok` exactly for the patterns that compile, the regex
/// kept with its pattern text; an error as its message (named
/// `regex_error_message`).
#[verifier::external_body]
pub(crate) fn regex_new(pattern: &str) -> (r: Result<PatternRegex, String>)
    ensures
        r is Ok == regex_accepts(pattern@),
        r matches Ok(p) ==> p.pattern() == pattern@,
        r matches Err(m) ==> m@ == regex_error_message(pattern@),
{
    match regex::Regex::new(pattern) {
        Ok(regex) => Ok(PatternRegex { regex, pattern: pattern.to_string() }),
        Err(e) => Err(e.to_string()),
    }
}

/// The pattern of an optional regex.
pub open spec fn regex_pattern(r: Option<PatternRegex>) -> Option<Seq<char>> {
    match r {
        Some(p) => Some(p.pattern()),
        None => None,
    }
}

pub open spec fn opt_chars(o: Option<String>) -> Option<Seq<char>> {
    match o {
        Some(t) => Some(t@),
        None => None,
    }
}

/// Capture groups as the contracts read them.
pub open spec fn captures_view(v: Seq<(Option<String>, Option<String>)>) -> Seq<(Option<Seq<char>>, Option<Seq<char>>)> {
    v.map_values(|g: (Option<String>, Option<String>)| (opt_chars(g.0), opt_chars(g.1)))
}

/// `Regex::captures` on a line, each group with its name (from
/// `capture_names`) and matched text (named `regex_captures_of` of the
/// regex's pattern and the line).
#[verifier::external_body]
pub(crate) fn regex_captures(re: &PatternRegex, line: &str) -> (r: Option<Vec<(Option<String>, Option<String>)>>)
    ensures
        match (r, regex_captures_of(re.pattern(), line@)) {
            (Some(v), Some(c)) => captures_view(v@) == c,
            (None, None) => true,
            _ => false,
        },
{
    let caps = re.regex.captures(line)?;
    Some(
        re.regex.capture_names().zip(caps.iter()).map(
            |(n, m)| (n.map(|s| s.to_string()), m.map(|m| m.as_str().to_string())),
        ).collect(),
    )
}

} // verus!
