//! Source naming and directory layout: which names a captured source may
//! take, where its data and marker files live, and how discovered sources are
//! ordered. Paths are held as text and joined with Unix rules.
use crate::parsing::{Pairs, pairs_of};
use crate::renderer::field::{insert_sorted, sorted_pairs, sorted_by_key};
use crate::text::{str_chars, string_from_chars, string_from_char_range, push_str, str_trim, trim_ws, parse_u64_bytes, parse_u64_spec};
use vstd::prelude::*;

verus! {

/// Status of a discovered source
#[derive(Debug, Clone, Copy, PartialEq, Eq, Structural)]
pub enum SourceStatus {
    /// Source is actively being written to (marker exists, PID running)
    Active,
    /// Source has ended (no marker or PID not running)
    Ended,
}

/// Location where a source was discovered
#[derive(Debug, Clone, Copy, PartialEq, Eq, Structural)]
pub enum SourceLocation {
    /// Source is in project-local .lazytail/data/
    Project,
    /// Source is in global ~/.config/lazytail/data/
    Global,
}

/// A discovered log source
#[derive(Debug, Clone)]
pub struct DiscoveredSource {
    /// Display name (filename without .log extension)
    pub name: String,
    /// Full path to the log file
    pub log_path: String,
    /// Whether the source is currently active
    pub status: SourceStatus,
    /// Where the source was discovered (project-local or global)
    pub location: SourceLocation,
}

/// Where configuration was found: the project root (a directory holding a
/// project configuration) and the configuration files themselves.
#[derive(Debug, Clone, Default)]
pub struct DiscoveryResult {
    pub project_root: Option<String>,
    pub project_config: Option<String>,
    pub global_config: Option<String>,
}

/// Why a source name was refused.
#[derive(Debug, Clone, Copy, PartialEq, Eq, Structural)]
pub enum SourceNameError {
    Empty,
    PathSeparator,
    TooLong,
    LeadingDot,
    InvalidCharacters,
}

impl SourceNameError {
    /// The message shown to the user.
    pub fn message(&self) -> (r: &'static str)
        ensures
            r@ == source_name_error_text(*self),
    {
        match self {
            SourceNameError::Empty => "Source name cannot be empty",
            SourceNameError::PathSeparator => "Source name cannot contain path separators",
            SourceNameError::TooLong => "Source name too long (max 255 characters)",
            SourceNameError::LeadingDot => "Source name cannot start with a dot",
            SourceNameError::InvalidCharacters => "Source name contains invalid characters",
        }
    }
}

pub open spec fn source_name_error_text(e: SourceNameError) -> Seq<char> {
    match e {
        SourceNameError::Empty => "Source name cannot be empty"@,
        SourceNameError::PathSeparator => "Source name cannot contain path separators"@,
        SourceNameError::TooLong => "Source name too long (max 255 characters)"@,
        SourceNameError::LeadingDot => "Source name cannot start with a dot"@,
        SourceNameError::InvalidCharacters => "Source name contains invalid characters"@,
    }
}

/// The verdict on a source name: the first rule it breaks, in the order
/// empty, path separator (`/`, `\` or NUL), longer than 255 bytes, leading
/// dot, other invalid character (`:`, `*`, `?`).
pub open spec fn source_name_verdict(name: Seq<char>) -> Result<(), SourceNameError> {
    if name.len() == 0 {
        Err(SourceNameError::Empty)
    } else if name.contains('/') || name.contains('\\') || name.contains('\0') {
        Err(SourceNameError::PathSeparator)
    } else if vstd::utf8::encode_utf8(name).len() > 255 {
        Err(SourceNameError::TooLong)
    } else if name[0] == '.' {
        Err(SourceNameError::LeadingDot)
    } else if name.contains(':') || name.contains('*') || name.contains('?') {
        Err(SourceNameError::InvalidCharacters)
    } else {
        Ok(())
    }
}

/// Whether `c` occurs in `v`.
fn contains_char(v: &Vec<char>, c: char) -> (r: bool)
    ensures
        r == v@.contains(c),
{
    let mut i: usize = 0;
    while i < v.len()
        invariant
            i <= v@.len(),
            forall|j: int| 0 <= j < i ==> v@[j] != c,
        decreases v@.len() - i,
    {
        if v[i] == c {
            return true;
        }
        i = i + 1;
    }
    false
}

/// Validate a source name for use in capture mode.
pub fn validate_source_name(name: &str) -> (r: Result<(), SourceNameError>)
    ensures
        r == source_name_verdict(name@),
{
    let cs = str_chars(name);
    if cs.len() == 0 {
        return Err(SourceNameError::Empty);
    }
    if contains_char(&cs, '/') || contains_char(&cs, '\\') || contains_char(&cs, '\0') {
        return Err(SourceNameError::PathSeparator);
    }
    if name.as_bytes().len() > 255 {
        return Err(SourceNameError::TooLong);
    }
    if cs[0] == '.' {
        return Err(SourceNameError::LeadingDot);
    }
    if contains_char(&cs, ':') || contains_char(&cs, '*') || contains_char(&cs, '?') {
        return Err(SourceNameError::InvalidCharacters);
    }
    Ok(())
}

/// `Path::join` on Unix: an absolute component replaces the base; otherwise
/// the component is appended after a `/` unless the base is empty or already
/// ends with one.
pub open spec fn joined(base: Seq<char>, comp: Seq<char>) -> Seq<char> {
    if comp.len() > 0 && comp[0] == '/' {
        comp
    } else if base.len() == 0 || base.last() == '/' {
        base + comp
    } else {
        base + seq!['/'] + comp
    }
}

/// Join a path component onto a base path (Unix rules).
pub fn join_path(base: &str, comp: &str) -> (r: String)
    ensures
        r@ == joined(base@, comp@),
{
    let b = str_chars(base);
    let c = str_chars(comp);
    if c.len() > 0 && c[0] == '/' {
        return string_from_chars(c.as_slice());
    }
    let mut out = b;
    if out.len() > 0 && out[out.len() - 1] != '/' {
        out.push('/');
    }
    push_str(&mut out, comp);
    string_from_chars(out.as_slice())
}

/// The user's home directory (`dirs::home_dir`), as lossily decoded text.
/// It comes from the environment (`$HOME`) or the user database, so nothing
/// is stated of it.
#[verifier::external_body]
fn home_dir() -> Option<String> {
    dirs::home_dir().map(|p| p.to_string_lossy().into_owned())
}

/// `<home>/.config/lazytail`
pub open spec fn lazytail_dir_under(home: Seq<char>) -> Seq<char> {
    joined(joined(home, ".config"@), "lazytail"@)
}

/// The lazytail config directory under a home directory.
fn lazytail_dir_in(home: &str) -> (r: String)
    ensures
        r@ == lazytail_dir_under(home@),
{
    let c = join_path(home, ".config");
    join_path(c.as_str(), "lazytail")
}

/// Get the lazytail config directory: ~/.config/lazytail/
///
/// Always uses `~/.config/` regardless of platform for consistency.
pub fn lazytail_dir() -> (r: Option<String>)
    ensures
        r matches Some(d) ==> exists|home: Seq<char>| d@ == lazytail_dir_under(home),
{
    match home_dir() {
        Some(h) => Some(lazytail_dir_in(h.as_str())),
        None => None,
    }
}

/// Get the data directory path: ~/.config/lazytail/data/
pub fn data_dir() -> (r: Option<String>)
    ensures
        r matches Some(d) ==> exists|home: Seq<char>| d@ == joined(lazytail_dir_under(home), "data"@),
{
    match home_dir() {
        Some(h) => {
            let l = lazytail_dir_in(h.as_str());
            Some(join_path(l.as_str(), "data"))
        },
        None => None,
    }
}

/// Get the sources directory path: ~/.config/lazytail/sources/
pub fn sources_dir() -> (r: Option<String>)
    ensures
        r matches Some(d) ==> exists|home: Seq<char>| d@ == joined(lazytail_dir_under(home), "sources"@),
{
    match home_dir() {
        Some(h) => {
            let l = lazytail_dir_in(h.as_str());
            Some(join_path(l.as_str(), "sources"))
        },
        None => None,
    }
}

/// `<project_root>/.lazytail/<leaf>`
pub open spec fn project_dir(root: Seq<char>, leaf: Seq<char>) -> Seq<char> {
    joined(joined(root, ".lazytail"@), leaf)
}

/// Resolve the data directory path based on discovery context.
///
/// If inside a project (discovery has project_root), returns `project_root/.lazytail/data`.
/// Otherwise, falls back to the global data directory `~/.config/lazytail/data`.
pub fn resolve_data_dir(discovery: &DiscoveryResult) -> (r: Option<String>)
    ensures
        discovery.project_root matches Some(root) ==> r matches Some(d) && d@ == project_dir(root@, "data"@),
        discovery.project_root is None ==> (r matches Some(d) ==> exists|home: Seq<char>|
            d@ == joined(lazytail_dir_under(home), "data"@)),
{
    match &discovery.project_root {
        Some(root) => {
            let l = join_path(root.as_str(), ".lazytail");
            Some(join_path(l.as_str(), "data"))
        },
        None => data_dir(),
    }
}

/// Resolve the sources directory path based on discovery context.
///
/// If inside a project (discovery has project_root), returns `project_root/.lazytail/sources`.
/// Otherwise, falls back to the global sources directory `~/.config/lazytail/sources`.
pub fn resolve_sources_dir(discovery: &DiscoveryResult) -> (r: Option<String>)
    ensures
        discovery.project_root matches Some(root) ==> r matches Some(d) && d@ == project_dir(root@, "sources"@),
        discovery.project_root is None ==> (r matches Some(d) ==> exists|home: Seq<char>|
            d@ == joined(lazytail_dir_under(home), "sources"@)),
{
    match &discovery.project_root {
        Some(root) => {
            let l = join_path(root.as_str(), ".lazytail");
            Some(join_path(l.as_str(), "sources"))
        },
        None => sources_dir(),
    }
}

/// The log file of a source in a data directory: `<data_dir>/<name>.log`,
/// once the name has passed validation.
pub fn source_log_path(name: &str, data_dir: &str) -> (r: Result<String, SourceNameError>)
    ensures
        match source_name_verdict(name@) {
            Err(e) => r == Err::<String, SourceNameError>(e),
            Ok(_) => r matches Ok(p) && p@ == joined(data_dir@, name@ + ".log"@),
        },
{
    match validate_source_name(name) {
        Err(e) => Err(e),
        Ok(()) => {
            let mut file = str_chars(name);
            push_str(&mut file, ".log");
            let f = string_from_chars(file.as_slice());
            Ok(join_path(data_dir, f.as_str()))
        },
    }
}

/// The message given when a source's log file is not in the data directory.
pub open spec fn source_not_found_text(name: Seq<char>) -> Seq<char> {
    "Source '"@ + name + "' not found. Use list_sources to see available sources."@
}

/// Resolve a source name to its log file path in `data_dir`, given whether
/// the file at that path exists: the path; or, for an invalid name, the
/// name's error message; or, when the file is missing, a message pointing to
/// `list_sources`.
pub fn resolve_source_in(name: &str, data_dir: &str, exists: bool) -> (r: Result<String, String>)
    ensures
        match source_name_verdict(name@) {
            Err(e) => r matches Err(m) && m@ == source_name_error_text(e),
            Ok(_) => if exists {
                r matches Ok(p) && p@ == joined(data_dir@, name@ + ".log"@)
            } else {
                r matches Err(m) && m@ == source_not_found_text(name@)
            },
        },
{
    match source_log_path(name, data_dir) {
        Err(e) => Err(string_from_chars(str_chars(e.message()).as_slice())),
        Ok(path) => {
            if exists {
                Ok(path)
            } else {
                let mut t = str_chars("Source '");
                push_str(&mut t, name);
                push_str(&mut t, "' not found. Use list_sources to see available sources.");
                Err(string_from_chars(t.as_slice()))
            }
        },
    }
}

/// The process id recorded in a marker file: its trimmed contents parsed as
/// a `u32`.
pub open spec fn marker_pid(contents: Seq<char>) -> Option<u32> {
    match parse_u64_spec(vstd::utf8::encode_utf8(trim_ws(contents))) {
        Some(v) => if v <= u32::MAX {
            Some(v as u32)
        } else {
            None
        },
        None => None,
    }
}

/// Read the PID from the contents of a marker file.
pub fn parse_marker_pid(contents: &str) -> (r: Option<u32>)
    ensures
        r == marker_pid(contents@),
{
    let t = str_trim(contents);
    let b = t.as_bytes();
    match parse_u64_bytes(b, 0, b.len()) {
        Some(v) => {
            proof {
                assert(b@.subrange(0, b@.len() as int) == b@);
            }
            if v <= 0xffff_ffffu64 {
                Some(v as u32)
            } else {
                None
            }
        },
        None => {
            proof {
                assert(b@.subrange(0, b@.len() as int) == b@);
            }
            None
        },
    }
}

/// The status of a source from its marker: active when the marker held a
/// process id and that process runs.
pub fn marker_status(pid: Option<u32>, running: bool) -> (r: SourceStatus)
    ensures
        r == (if pid is Some && running {
            SourceStatus::Active
        } else {
            SourceStatus::Ended
        }),
{
    match pid {
        Some(_) if running => SourceStatus::Active,
        _ => SourceStatus::Ended,
    }
}

/// What `Path::with_extension` makes of a path and an extension (the text of
/// both taken as Unix paths).
pub uninterp spec fn with_extension(path: Seq<char>, ext: Seq<char>) -> Seq<char>;

/// Index of the last `c` in `s`, or -1.
pub open spec fn last_index_of(s: Seq<char>, c: char) -> int
    decreases s.len(),
{
    if s.len() == 0 {
        -1
    } else if s.last() == c {
        s.len() - 1
    } else {
        last_index_of(s.drop_last(), c)
    }
}

/// The text after the last `/` of a path.
pub open spec fn final_component(p: Seq<char>) -> Seq<char> {
    p.skip(last_index_of(p, '/') + 1)
}

/// Whether a path ends in a file name: its final component is neither
/// empty (a trailing `/`) nor `.` nor `..`.
pub open spec fn ends_in_file_name(p: Seq<char>) -> bool {
    let n = final_component(p);
    n.len() > 0 && n != seq!['.'] && n != seq!['.', '.']
}

/// A file name without its extension: the text before its last `.`, unless
/// that `.` starts the name.
pub open spec fn file_stem_of(n: Seq<char>) -> Seq<char> {
    let d = last_index_of(n, '.');
    if d > 0 {
        n.take(d)
    } else {
        n
    }
}

/// `Path::new(path).with_extension(ext)`, as text. `set_extension` panics
/// on an extension that holds a path separator, so none may. As documented,
/// a path that ends in a file name gets its extension (what follows the
/// last `.` not at the start of the name) replaced by, or added as, a
/// non-empty `ext`; what it makes of other paths is left to the name.
#[verifier::external_body]
fn path_with_extension(path: &str, ext: &str) -> (r: String)
    requires
        !ext@.contains('/'),
    ensures
        r@ == with_extension(path@, ext@),
        ends_in_file_name(path@) && ext@.len() > 0 ==> r@ == path@.take(last_index_of(path@, '/') + 1)
            + file_stem_of(final_component(path@)) + seq!['.'] + ext@,
{
    std::path::Path::new(path).with_extension(ext).to_string_lossy().into_owned()
}

/// Derive the index directory path for a given log file.
/// e.g., `/path/to/myapp.log` → `/path/to/myapp.idx/`
pub fn index_dir_for_log(log_path: &str) -> (r: String)
    ensures
        r@ == with_extension(log_path@, "idx"@),
        ends_in_file_name(log_path@) ==> r@ == log_path@.take(last_index_of(log_path@, '/') + 1) + file_stem_of(
            final_component(log_path@),
        ) + ".idx"@,
{
    proof {
        reveal_strlit("idx");
        reveal_strlit(".idx");
        assert(seq!['.'] + "idx"@ =~= ".idx"@);
        assert(!"idx"@.contains('/')) by {
            assert forall|i: int| 0 <= i < "idx"@.len() implies "idx"@[i] != '/' by {}
        }
    }
    path_with_extension(log_path, "idx")
}

/// Whether a directory entry named `f` is a log file: its extension is
/// `log` (a name that is only `.log` has none).
pub open spec fn is_log_file(f: Seq<char>) -> bool {
    f.len() > 4 && f.subrange(f.len() - 4, f.len() as int) == ".log"@
}

/// The name of a log source: its file name without the `.log` extension.
pub open spec fn log_stem(f: Seq<char>) -> Seq<char> {
    f.subrange(0, f.len() - 4)
}

/// The log files among the entries of `dir`, in listing order, as
/// `(name, path)`.
pub open spec fn log_entries(dir: Seq<char>, names: Seq<Seq<char>>) -> Pairs
    decreases names.len(),
{
    if names.len() == 0 {
        seq![]
    } else {
        let prev = log_entries(dir, names.drop_last());
        let f = names.last();
        if is_log_file(f) {
            prev.push((log_stem(f), joined(dir, f)))
        } else {
            prev
        }
    }
}

/// Whether the entry name ends in `.log` after at least one other character.
fn log_file_name(f: &str) -> (r: bool)
    ensures
        r == is_log_file(f@),
{
    let cs = str_chars(f);
    let n = cs.len();
    if n <= 4 {
        return false;
    }
    let r = cs[n - 4] == '.' && cs[n - 3] == 'l' && cs[n - 2] == 'o' && cs[n - 1] == 'g';
    proof {
        reveal_strlit(".log");
        let t = f@.subrange(f@.len() - 4, f@.len() as int);
        if r {
            assert(t =~= ".log"@);
        } else {
            assert(t != ".log"@) by {
                if t == ".log"@ {
                    assert(t[0] == '.' && t[1] == 'l' && t[2] == 'o' && t[3] == 'g');
                }
            }
        }
    }
    r
}

/// The log sources of a data directory, from the names of its entries:
/// each `<name>.log` entry gives the source `name` at `<dir>/<name>.log`.
/// Sorted by name; entries with equal names keep their listing order.
pub fn log_sources_in(dir: &str, file_names: &Vec<String>) -> (r: Vec<(String, String)>)
    ensures
        pairs_of(r@) == sorted_pairs(log_entries(dir@, file_names@.map_values(|s: String| s@))),
        sorted_by_key(pairs_of(r@)),
{
    let ghost names = file_names@.map_values(|s: String| s@);
    let mut out: Vec<(String, String)> = Vec::new();
    let mut i: usize = 0;
    assert(pairs_of(out@) =~= sorted_pairs(log_entries(dir@, names.subrange(0, 0))));
    while i < file_names.len()
        invariant
            i <= file_names@.len(),
            names == file_names@.map_values(|s: String| s@),
            pairs_of(out@) == sorted_pairs(log_entries(dir@, names.subrange(0, i as int))),
            sorted_by_key(pairs_of(out@)),
        decreases file_names@.len() - i,
    {
        let f = &file_names[i];
        let ghost pre = names.subrange(0, i as int);
        assert(names.subrange(0, i + 1).drop_last() == pre);
        assert(names.subrange(0, i + 1).last() == f@);
        let ghost e = log_entries(dir@, pre);
        if log_file_name(f.as_str()) {
            let cs = str_chars(f.as_str());
            let stem = string_from_char_range(cs.as_slice(), 0, cs.len() - 4);
            let path = join_path(dir, f.as_str());
            assert(stem@ == log_stem(f@)) by {
                assert(stem@ =~= log_stem(f@));
            }
            let ghost x = (stem@, path@);
            assert(log_entries(dir@, names.subrange(0, i + 1)) == e.push(x));
            assert(e.push(x).drop_last() == e);
            insert_sorted(&mut out, (stem, path));
        } else {
            assert(log_entries(dir@, names.subrange(0, i + 1)) == e);
        }
        i = i + 1;
    }
    assert(names.subrange(0, file_names@.len() as int) == names);
    out
}

} // verus!
