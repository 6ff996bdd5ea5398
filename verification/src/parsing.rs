//! Parsing of structured log lines: logfmt `key=value` pairs, and field
//! lookup in JSON values by dotted paths.
use crate::text::{char_is_whitespace, is_whitespace, str_chars, str_eq, string_from_char_range, string_from_chars};
use vstd::prelude::*;

verus! {

/// Key/value pairs, keys in order of first insertion.
pub type Pairs = Seq<(Seq<char>, Seq<char>)>;

pub open spec fn pairs_of(v: Seq<(String, String)>) -> Pairs {
    v.map_values(|p: (String, String)| (p.0@, p.1@))
}

pub open spec fn distinct_keys(s: Pairs) -> bool {
    forall|i: int, j: int| 0 <= i < j < s.len() ==> s[i].0 != s[j].0
}

/// Position of `key` in `s`, or -1.
pub open spec fn key_index(s: Pairs, key: Seq<char>) -> int
    decreases s.len(),
{
    if s.len() == 0 {
        -1
    } else if s.last().0 == key {
        s.len() - 1
    } else {
        key_index(s.drop_last(), key)
    }
}

/// The value of `key` in `s`.
pub open spec fn pairs_get(s: Pairs, key: Seq<char>) -> Option<Seq<char>> {
    let i = key_index(s, key);
    if i < 0 {
        None
    } else {
        Some(s[i].1)
    }
}

/// `HashMap::insert`: a new key goes last, an existing key gets the value.
pub open spec fn pairs_insert(s: Pairs, key: Seq<char>, value: Seq<char>) -> Pairs {
    let i = key_index(s, key);
    if i < 0 {
        s.push((key, value))
    } else {
        s.update(i, (key, value))
    }
}

/// Inserting the pairs of `p` in order.
pub open spec fn insert_all(s: Pairs, p: Pairs) -> Pairs
    decreases p.len(),
{
    if p.len() == 0 {
        s
    } else {
        insert_all(pairs_insert(s, p[0].0, p[0].1), p.drop_first())
    }
}

pub proof fn lemma_key_index(s: Pairs, key: Seq<char>)
    ensures
        -1 <= key_index(s, key) < s.len(),
        key_index(s, key) >= 0 ==> s[key_index(s, key)].0 == key,
        key_index(s, key) < 0 ==> forall|j: int| 0 <= j < s.len() ==> s[j].0 != key,
    decreases s.len(),
{
    if s.len() > 0 {
        lemma_key_index(s.drop_last(), key);
        assert forall|j: int| 0 <= j < s.len() - 1 implies #[trigger] s[j] == s.drop_last()[j] by {}
    }
}

proof fn lemma_insert_distinct(s: Pairs, key: Seq<char>, value: Seq<char>)
    requires
        distinct_keys(s),
    ensures
        distinct_keys(pairs_insert(s, key, value)),
{
    lemma_key_index(s, key);
}

/// A map from field names to values with no key twice (the role of a
/// `HashMap<String, String>`), in order of first insertion.
#[derive(Debug)]
pub struct FieldMap {
    entries: Vec<(String, String)>,
}

impl FieldMap {
    #[verifier::type_invariant]
    spec fn distinct(self) -> bool {
        distinct_keys(pairs_of(self.entries@))
    }

    /// The entries, keys in order of first insertion.
    pub closed spec fn view_pairs(self) -> Pairs {
        pairs_of(self.entries@)
    }

    /// An empty map.
    pub fn new() -> (r: Self)
        ensures
            r.view_pairs() == Seq::<(Seq<char>, Seq<char>)>::empty(),
    {
        let r = FieldMap { entries: Vec::new() };
        assert(pairs_of(r.entries@) =~= Seq::<(Seq<char>, Seq<char>)>::empty());
        r
    }

    /// Number of keys.
    pub fn len(&self) -> (r: usize)
        ensures
            r == self.view_pairs().len(),
    {
        self.entries.len()
    }

    /// Whether the map holds no key.
    pub fn is_empty(&self) -> (r: bool)
        ensures
            r == (self.view_pairs().len() == 0),
    {
        self.entries.len() == 0
    }

    fn find(&self, key: &str) -> (r: Option<usize>)
        ensures
            match r {
                Some(i) => i as int == key_index(self.view_pairs(), key@),
                None => key_index(self.view_pairs(), key@) < 0,
            },
    {
        let n = self.entries.len();
        let mut i: usize = n;
        assert(self.view_pairs().take(n as int) == self.view_pairs());
        while i > 0
            invariant
                n == self.entries@.len(),
                i <= n,
                key_index(self.view_pairs().take(i as int), key@) == key_index(self.view_pairs(), key@),
            decreases i,
        {
            assert(self.view_pairs().take(i as int).drop_last() == self.view_pairs().take(i - 1));
            if str_eq(self.entries[i - 1].0.as_str(), key) {
                return Some(i - 1);
            }
            i = i - 1;
        }
        None
    }

    /// The value of `key`, cloned.
    pub fn get(&self, key: &str) -> (r: Option<String>)
        ensures
            match (r, pairs_get(self.view_pairs(), key@)) {
                (Some(a), Some(b)) => a@ == b,
                (None, None) => true,
                _ => false,
            },
    {
        proof {
            lemma_key_index(self.view_pairs(), key@);
        }
        match self.find(key) {
            Some(i) => {
                assert(self.view_pairs()[i as int] == (self.entries@[i as int].0@, self.entries@[i as int].1@));
                Some(self.entries[i].1.clone())
            },
            None => None,
        }
    }

    /// Set the value of `key`.
    pub fn insert(&mut self, key: String, value: String)
        ensures
            final(self).view_pairs() == pairs_insert(old(self).view_pairs(), key@, value@),
    {
        proof {
            use_type_invariant(&*self);
            lemma_insert_distinct(self.view_pairs(), key@, value@);
            lemma_key_index(self.view_pairs(), key@);
        }
        match self.find(key.as_str()) {
            Some(i) => {
                let ghost before = self.view_pairs();
                let mut entries: Vec<(String, String)> = Vec::new();
                std::mem::swap(&mut entries, &mut self.entries);
                entries.set(i, (key, value));
                assert(pairs_of(entries@) =~= before.update(i as int, (key@, value@)));
                self.entries = entries;
            },
            None => {
                let ghost before = self.view_pairs();
                let mut entries: Vec<(String, String)> = Vec::new();
                std::mem::swap(&mut entries, &mut self.entries);
                entries.push((key, value));
                assert(pairs_of(entries@) =~= before.push((key@, value@)));
                self.entries = entries;
            },
        }
    }

    /// The entries as (key, value) pairs, keys in order of first insertion.
    pub fn pairs(&self) -> (r: &Vec<(String, String)>)
        ensures
            pairs_of(r@) == self.view_pairs(),
            distinct_keys(self.view_pairs()),
    {
        proof {
            use_type_invariant(self);
        }
        &self.entries
    }
}

/// `str::replace` with a nonempty pattern: each leftmost, non-overlapping
/// occurrence of `p` becomes `r`.
pub open spec fn replace_all(s: Seq<char>, p: Seq<char>, r: Seq<char>) -> Seq<char>
    decreases s.len(),
{
    if p.len() == 0 || s.len() < p.len() {
        s
    } else if s.take(p.len() as int) == p {
        r + replace_all(s.skip(p.len() as int), p, r)
    } else {
        seq![s[0]] + replace_all(s.drop_first(), p, r)
    }
}

/// Whether `p` occurs in `s` at position `i`.
fn occurs_at(s: &Vec<char>, i: usize, p: &Vec<char>) -> (r: bool)
    requires
        i <= s@.len(),
    ensures
        r == (i + p@.len() <= s@.len() && s@.subrange(i as int, i + p@.len()) == p@),
{
    if p.len() > s.len() - i {
        return false;
    }
    let mut k: usize = 0;
    let sl = s.len();
    while k < p.len()
        invariant
            sl == s@.len(),
            i + p@.len() <= s@.len(),
            k <= p@.len(),
            forall|m: int| 0 <= m < k ==> s@[i + m] == p@[m],
        decreases p@.len() - k,
    {
        if s[i + k] != p[k] {
            assert(s@.subrange(i as int, i + p@.len())[k as int] == s@[i + k]);
            return false;
        }
        k = k + 1;
    }
    assert(s@.subrange(i as int, i + p@.len()) =~= p@);
    true
}

/// `s` with every occurrence of the nonempty `p` replaced by `r`.
fn replace_chars(s: &Vec<char>, p: &str, r: &str) -> (out: Vec<char>)
    requires
        p@.len() > 0,
    ensures
        out@ == replace_all(s@, p@, r@),
{
    let pc = str_chars(p);
    let rc = str_chars(r);
    let mut out: Vec<char> = Vec::new();
    let mut i: usize = 0;
    assert(s@.skip(0) == s@);
    while i < s.len()
        invariant
            pc@ == p@,
            rc@ == r@,
            pc@.len() > 0,
            i <= s@.len(),
            out@ + replace_all(s@.skip(i as int), p@, r@) == replace_all(s@, p@, r@),
        decreases s@.len() - i,
    {
        let ghost t = s@.skip(i as int);
        let ghost before = out@;
        if occurs_at(s, i, &pc) {
            assert(t.take(p@.len() as int) == s@.subrange(i as int, i + p@.len()));
            assert(t.skip(p@.len() as int) == s@.skip(i + p@.len()));
            let mut rr = str_chars(r);
            out.append(&mut rr);
            i = i + pc.len();
            assert(out@ + replace_all(s@.skip(i as int), p@, r@) =~= before + replace_all(t, p@, r@));
        } else {
            proof {
                if t.len() >= p@.len() {
                    assert(t.take(p@.len() as int) == s@.subrange(i as int, i + p@.len()));
                }
            }
            assert(t.drop_first() == s@.skip(i + 1));
            out.push(s[i]);
            i = i + 1;
            assert(out@ + replace_all(s@.skip(i as int), p@, r@) =~= before + replace_all(t, p@, r@));
        }
    }
    assert(s@.skip(s@.len() as int).len() == 0);
    assert(out@ + Seq::<char>::empty() == out@);
    out
}

/// The escapes of a quoted logfmt value resolved, in this order: `\"`, `\\`,
/// `\n`, `\t`.
pub open spec fn logfmt_unescape(raw: Seq<char>) -> Seq<char> {
    replace_all(
        replace_all(replace_all(replace_all(raw, "\\\""@, "\""@), "\\\\"@, "\\"@), "\\n"@, "\n"@),
        "\\t"@,
        "\t"@,
    )
}

/// End of a key starting at `i`: the first `=` or whitespace, or the end.
pub open spec fn key_end(s: Seq<char>, i: int) -> int
    decreases s.len() - i,
{
    if i >= s.len() {
        s.len() as int
    } else if s[i] == '=' || is_whitespace(s[i]) {
        i
    } else {
        key_end(s, i + 1)
    }
}

/// End of an unquoted value starting at `i`: the first whitespace, or the end.
pub open spec fn token_end(s: Seq<char>, i: int) -> int
    decreases s.len() - i,
{
    if i >= s.len() {
        s.len() as int
    } else if is_whitespace(s[i]) {
        i
    } else {
        token_end(s, i + 1)
    }
}

/// Position of the quote that closes a quoted value, scanning from `i`
/// (a backslash escapes the next character), or the end.
pub open spec fn quote_end(s: Seq<char>, i: int, escaped: bool) -> int
    decreases s.len() - i,
{
    if i >= s.len() {
        s.len() as int
    } else if escaped {
        quote_end(s, i + 1, false)
    } else if s[i] == '\\' {
        quote_end(s, i + 1, true)
    } else if s[i] == '"' {
        i
    } else {
        quote_end(s, i + 1, false)
    }
}

pub proof fn lemma_ends_range(s: Seq<char>, i: int, escaped: bool)
    requires
        0 <= i,
    ensures
        i <= s.len() ==> i <= key_end(s, i) <= s.len(),
        i <= s.len() ==> i <= token_end(s, i) <= s.len(),
        i <= s.len() ==> i <= quote_end(s, i, escaped) <= s.len(),
        key_end(s, i) < s.len() ==> s[key_end(s, i)] == '=' || is_whitespace(s[key_end(s, i)]),
    decreases s.len() - i,
{
    if i < s.len() {
        lemma_ends_range(s, i + 1, false);
        lemma_ends_range(s, i + 1, true);
    }
}

/// The key/value assignments of a logfmt line from position `i` on, in
/// order: whitespace separates them; a key runs to `=` or whitespace (a key
/// without `=` is skipped, an empty key ends the line); a value is either a
/// quoted string (escapes resolved) or runs to the next whitespace.
pub open spec fn logfmt_pairs(s: Seq<char>, i: int) -> Pairs
    decreases s.len() - i,
{
    if i < 0 || i >= s.len() {
        seq![]
    } else if is_whitespace(s[i]) {
        logfmt_pairs(s, i + 1)
    } else {
        proof {
            lemma_ends_range(s, i, false);
        }
        let ke = key_end(s, i);
        let key = s.subrange(i, ke);
        if ke == i {
            seq![]
        } else if ke >= s.len() || s[ke] != '=' {
            logfmt_pairs(s, ke)
        } else {
            let vs = ke + 1;
            proof {
                lemma_ends_range(s, vs, false);
                lemma_ends_range(s, vs + 1, false);
            }
            if vs < s.len() && s[vs] == '"' {
                let q = quote_end(s, vs + 1, false);
                let next = if q < s.len() {
                    q + 1
                } else {
                    s.len() as int
                };
                seq![(key, logfmt_unescape(s.subrange(vs + 1, q)))] + logfmt_pairs(s, next)
            } else {
                let ve = token_end(s, vs);
                seq![(key, s.subrange(vs, ve))] + logfmt_pairs(s, ve)
            }
        }
    }
}

/// The fields of a logfmt line.
pub open spec fn logfmt_fields(s: Seq<char>) -> Pairs {
    insert_all(seq![], logfmt_pairs(s, 0))
}

proof fn lemma_insert_all_cons(m: Pairs, x: (Seq<char>, Seq<char>), rest: Pairs)
    ensures
        insert_all(m, seq![x] + rest) == insert_all(pairs_insert(m, x.0, x.1), rest),
{
    let p = seq![x] + rest;
    assert(p[0] == x);
    assert(p.drop_first() == rest);
}

/// Parse a logfmt line into key-value pairs.
pub fn parse_logfmt(line: &str) -> (r: FieldMap)
    ensures
        r.view_pairs() == logfmt_fields(line@),
{
    let s = str_chars(line);
    let n = s.len();
    let mut result = FieldMap::new();
    let mut i: usize = 0;
    assert(insert_all(Seq::<(Seq<char>, Seq<char>)>::empty(), logfmt_pairs(s@, 0)) == logfmt_fields(line@));
    while i < n
        invariant
            n == s@.len(),
            s@ == line@,
            i <= n,
            insert_all(result.view_pairs(), logfmt_pairs(s@, i as int)) == logfmt_fields(line@),
        ensures
            result.view_pairs() == logfmt_fields(line@),
        decreases n - i,
    {
        let ghost i0 = i as int;
        let ch = s[i];
        if char_is_whitespace(ch) {
            i = i + 1;
            assert(logfmt_pairs(s@, i0) == logfmt_pairs(s@, i as int));
            continue;
        }
        proof {
            lemma_ends_range(s@, i as int, false);
        }
        let key_start = i;
        while i < n && s[i] != '=' && !char_is_whitespace(s[i])
            invariant
                n == s@.len(),
                key_start <= i <= n,
                key_end(s@, i as int) == key_end(s@, key_start as int),
            decreases n - i,
        {
            i = i + 1;
        }
        let key_end_pos = i;
        assert(key_end(s@, i as int) == i);
        if key_end_pos == key_start {
            assert(logfmt_pairs(s@, key_start as int) == Seq::<(Seq<char>, Seq<char>)>::empty());
            assert(insert_all(result.view_pairs(), Seq::<(Seq<char>, Seq<char>)>::empty()) == result.view_pairs());
            break;
        }
        if i >= n || s[i] != '=' {
            assert(logfmt_pairs(s@, i0) == logfmt_pairs(s@, i as int));
            continue;
        }
        let key = string_from_char_range(s.as_slice(), key_start, key_end_pos);
        i = i + 1;
        let ghost vs = i as int;
        proof {
            lemma_ends_range(s@, vs, false);
            lemma_ends_range(s@, vs + 1, false);
        }
        let ghost m0 = result.view_pairs();
        if i < n && s[i] == '"' {
            i = i + 1;
            let value_start = i;
            let mut escaped = false;
            let mut value_end = value_start;
            while i < n && !(s[i] == '"' && !escaped)
                invariant
                    n == s@.len(),
                    value_start <= value_end <= i <= n,
                    value_start == vs + 1,
                    value_end == i,
                    quote_end(s@, i as int, escaped) == quote_end(s@, vs + 1, false),
                decreases n - i,
            {
                let c = s[i];
                if escaped {
                    escaped = false;
                } else if c == '\\' {
                    escaped = true;
                }
                value_end = i + 1;
                i = i + 1;
            }
            let ghost q = quote_end(s@, vs + 1, false);
            assert(value_end == q);
            proof {
                reveal_strlit("\\\"");
                reveal_strlit("\\\\");
                reveal_strlit("\\n");
                reveal_strlit("\\t");
            }
            let raw = string_from_char_range(s.as_slice(), value_start, value_end);
            let cs = str_chars(raw.as_str());
            let v1 = replace_chars(&cs, "\\\"", "\"");
            let v2 = replace_chars(&v1, "\\\\", "\\");
            let v3 = replace_chars(&v2, "\\n", "\n");
            let v4 = replace_chars(&v3, "\\t", "\t");
            let value = string_from_chars(v4.as_slice());
            if i < n {
                i = i + 1;
            }
            let ghost kv = (key@, value@);
            assert(logfmt_pairs(s@, i0) == seq![kv] + logfmt_pairs(s@, i as int));
            result.insert(key, value);
            proof {
                lemma_insert_all_cons(m0, kv, logfmt_pairs(s@, i as int));
            }
        } else {
            let value_start = i;
            while i < n && !char_is_whitespace(s[i])
                invariant
                    n == s@.len(),
                    value_start <= i <= n,
                    token_end(s@, i as int) == token_end(s@, value_start as int),
                decreases n - i,
            {
                i = i + 1;
            }
            let value = string_from_char_range(s.as_slice(), value_start, i);
            let ghost kv = (key@, value@);
            assert(logfmt_pairs(s@, i0) == seq![kv] + logfmt_pairs(s@, i as int));
            result.insert(key, value);
            proof {
                lemma_insert_all_cons(m0, kv, logfmt_pairs(s@, i as int));
            }
        }
    }
    result
}

/// A parsed JSON value, as the field lookup reads it: numbers keep their
/// text, arrays and objects carry their compact JSON text.
#[derive(Debug)]
pub enum JsonValue {
    Null,
    Bool(bool),
    Number(String),
    Str(String),
    Array(Vec<JsonValue>, String),
    Object(Vec<(String, JsonValue)>, String),
}

/// The `.`-separated parts of a field path (`str::split('.')`).
pub open spec fn path_parts(s: Seq<char>) -> Seq<Seq<char>>
    decreases s.len(),
{
    if s.len() == 0 {
        seq![seq![]]
    } else {
        let f = path_parts(s.drop_last());
        if s.last() == '.' {
            f.push(seq![])
        } else {
            f.update(f.len() - 1, f.last().push(s.last()))
        }
    }
}

/// `str::parse::<usize>` of a path part.
pub open spec fn part_index(part: Seq<char>) -> Option<usize> {
    match crate::text::parse_u64_spec(vstd::utf8::encode_utf8(part)) {
        Some(v) => if v <= usize::MAX {
            Some(v as usize)
        } else {
            None
        },
        None => None,
    }
}

/// Position of the first entry with the given key, or -1.
pub open spec fn entry_index(entries: Seq<(String, JsonValue)>, key: Seq<char>, from: int) -> int
    decreases entries.len() - from,
{
    if from < 0 || from >= entries.len() {
        -1
    } else if entries[from].0@ == key {
        from
    } else {
        entry_index(entries, key, from + 1)
    }
}

/// One step of a path: an array element by numeric index, else an object
/// member by name.
pub open spec fn json_step(v: JsonValue, part: Seq<char>) -> Option<JsonValue> {
    match v {
        JsonValue::Array(items, _) => match part_index(part) {
            Some(k) => if k < items@.len() {
                Some(items@[k as int])
            } else {
                None
            },
            None => None,
        },
        JsonValue::Object(entries, _) => {
            let e = entry_index(entries@, part, 0);
            if e >= 0 {
                Some(entries@[e].1)
            } else {
                None
            }
        },
        _ => None,
    }
}

/// The value reached from `v` along the path parts.
pub open spec fn json_walk(v: JsonValue, parts: Seq<Seq<char>>) -> Option<JsonValue>
    decreases parts.len(),
{
    if parts.len() == 0 {
        Some(v)
    } else {
        match json_step(v, parts[0]) {
            Some(c) => json_walk(c, parts.drop_first()),
            None => None,
        }
    }
}

/// How a JSON value reads as a field: strings without quotes, other scalars
/// as written, arrays and objects as compact JSON.
pub open spec fn json_text(v: JsonValue) -> Seq<char> {
    match v {
        JsonValue::Null => "null"@,
        JsonValue::Bool(b) => if b {
            "true"@
        } else {
            "false"@
        },
        JsonValue::Number(t) => t@,
        JsonValue::Str(t) => t@,
        JsonValue::Array(_, t) => t@,
        JsonValue::Object(_, t) => t@,
    }
}

/// The text of the field at a dotted path in a JSON value.
pub open spec fn json_field(v: JsonValue, field: Seq<char>) -> Option<Seq<char>> {
    match json_walk(v, path_parts(field)) {
        Some(c) => Some(json_text(c)),
        None => None,
    }
}

proof fn lemma_path_parts_nonempty(s: Seq<char>)
    ensures
        path_parts(s).len() >= 1,
    decreases s.len(),
{
    if s.len() > 0 {
        lemma_path_parts_nonempty(s.drop_last());
    }
}

/// The parts of a dotted path.
fn split_path(field: &str) -> (r: Vec<String>)
    ensures
        r@.map_values(|p: String| p@) == path_parts(field@),
{
    let cs = str_chars(field);
    let mut out: Vec<String> = Vec::new();
    let mut seg: usize = 0;
    let mut i: usize = 0;
    assert(cs@.take(0) == Seq::<char>::empty());
    assert(path_parts(cs@.take(0)).drop_last() =~= Seq::<Seq<char>>::empty());
    while i < cs.len()
        invariant
            cs@ == field@,
            seg <= i <= cs@.len(),
            path_parts(cs@.take(i as int)).last() == cs@.subrange(seg as int, i as int),
            out@.map_values(|p: String| p@) == path_parts(cs@.take(i as int)).drop_last(),
        decreases cs@.len() - i,
    {
        let ghost t = cs@.take(i + 1);
        assert(t.drop_last() == cs@.take(i as int));
        assert(t.last() == cs@[i as int]);
        proof {
            lemma_path_parts_nonempty(cs@.take(i as int));
        }
        if cs[i] == '.' {
            let ghost f = path_parts(cs@.take(i as int));
            let part = string_from_char_range(cs.as_slice(), seg, i);
            let ghost before = out@.map_values(|p: String| p@);
            out.push(part);
            assert(out@.map_values(|p: String| p@) =~= before.push(f.last()));
            assert(f == f.drop_last().push(f.last()));
            assert(path_parts(t).drop_last() == f);
            seg = i + 1;
            assert(cs@.subrange(seg as int, seg as int) == Seq::<char>::empty());
        } else {
            assert(cs@.subrange(seg as int, i + 1) == cs@.subrange(seg as int, i as int).push(cs@[i as int]));
        }
        i = i + 1;
    }
    assert(cs@.take(cs@.len() as int) == cs@);
    proof {
        lemma_path_parts_nonempty(cs@);
    }
    let ghost f = path_parts(cs@);
    let last = string_from_char_range(cs.as_slice(), seg, cs.len());
    let ghost before = out@.map_values(|p: String| p@);
    out.push(last);
    assert(out@.map_values(|p: String| p@) =~= before.push(f.last()));
    assert(f == f.drop_last().push(f.last()));
    out
}

/// One step of a path from `v`.
fn json_step_exec<'a>(v: &'a JsonValue, part: &String) -> (r: Option<&'a JsonValue>)
    ensures
        match (r, json_step(*v, part@)) {
            (Some(a), Some(b)) => *a == b,
            (None, None) => true,
            _ => false,
        },
{
    match v {
        JsonValue::Array(items, _) => {
            let b = part.as_str().as_bytes();
            match crate::text::parse_u64_bytes(b, 0, b.len()) {
                Some(k) => {
                    assert(b@.subrange(0, b@.len() as int) == b@);
                    if k <= usize::MAX as u64 && (k as usize) < items.len() {
                        Some(&items[k as usize])
                    } else {
                        None
                    }
                },
                None => {
                    assert(b@.subrange(0, b@.len() as int) == b@);
                    None
                },
            }
        },
        JsonValue::Object(entries, _) => {
            let mut e: usize = 0;
            while e < entries.len() && !str_eq(entries[e].0.as_str(), part.as_str())
                invariant
                    e <= entries@.len(),
                    entry_index(entries@, part@, e as int) == entry_index(entries@, part@, 0),
                decreases entries@.len() - e,
            {
                e = e + 1;
            }
            if e < entries.len() {
                Some(&entries[e].1)
            } else {
                None
            }
        },
        _ => None,
    }
}

/// Extract a field from a JSON value, supporting dot-notation for nested fields
/// and numeric indices for arrays.
pub fn extract_json_field(json: &JsonValue, field: &str) -> (r: Option<String>)
    ensures
        match (r, json_field(*json, field@)) {
            (Some(a), Some(b)) => a@ == b,
            (None, None) => true,
            _ => false,
        },
{
    let parts = split_path(field);
    let ghost ps = path_parts(field@);
    let mut current: &JsonValue = json;
    let mut i: usize = 0;
    assert(ps.skip(0) == ps);
    while i < parts.len()
        invariant
            parts@.map_values(|p: String| p@) == ps,
            ps == path_parts(field@),
            i <= parts@.len(),
            json_walk(*current, ps.skip(i as int)) == json_walk(*json, ps),
        decreases parts@.len() - i,
    {
        assert(ps.skip(i as int)[0] == parts@[i as int]@);
        assert(ps.skip(i as int).drop_first() == ps.skip(i + 1));
        match json_step_exec(current, &parts[i]) {
            Some(c) => {
                current = c;
            },
            None => {
                return None;
            },
        }
        i = i + 1;
    }
    assert(ps.skip(parts@.len() as int).len() == 0);
    let text = match current {
        JsonValue::Null => "null".to_string(),
        JsonValue::Bool(b) => if *b {
            "true".to_string()
        } else {
            "false".to_string()
        },
        JsonValue::Number(t) => t.clone(),
        JsonValue::Str(t) => t.clone(),
        JsonValue::Array(_, t) => t.clone(),
        JsonValue::Object(_, t) => t.clone(),
    };
    Some(text)
}

} // verus!
