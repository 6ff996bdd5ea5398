//! Field extraction from a log line for preset rendering: JSON objects,
//! logfmt pairs or named regex captures.
use super::pattern::{captures_view, regex_captures, regex_captures_of, PatternRegex};
use super::preset::PresetParser;
use crate::index::flags::{FLAG_FORMAT_JSON, FLAG_FORMAT_LOGFMT};
use crate::parsing::{
    extract_json_field, json_field, json_text, logfmt_fields, pairs_get, pairs_insert, pairs_of, parse_logfmt, FieldMap,
    JsonValue, Pairs,
};
use crate::text::{str_chars, str_eq};
use vstd::prelude::*;

verus! {

broadcast use vstd::seq_lib::group_to_multiset_ensures, vstd::multiset::group_multiset_axioms;

#[verifier::external_type_specification]
#[verifier::external_body]
pub struct ExJsonParsed(serde_json::Value);

/// What `serde_json::from_str::<serde_json::Value>` makes of a text, in the
/// library's JSON model (`None` when it is no JSON).
pub uninterp spec fn json_parsed(text: Seq<char>) -> Option<JsonValue>;

/// The JSON text that `serde_json` writes for an object built from the given
/// string members (its map keeps keys sorted, and a later member of the same
/// key replaces an earlier one).
pub uninterp spec fn json_string_object(pairs: Pairs) -> Seq<char>;

/// The library's model of a `serde_json::Value`: the same tree, numbers as
/// their text, arrays and objects with their compact JSON text. This only
/// converts; `parse_json` states what the model of a parsed text is.
#[verifier::external_body]
fn json_model(v: &serde_json::Value) -> JsonValue {
    match v {
        serde_json::Value::Null => JsonValue::Null,
        serde_json::Value::Bool(b) => JsonValue::Bool(*b),
        serde_json::Value::Number(n) => JsonValue::Number(n.to_string()),
        serde_json::Value::String(s) => JsonValue::Str(s.clone()),
        serde_json::Value::Array(a) => JsonValue::Array(a.iter().map(json_model).collect(), v.to_string()),
        serde_json::Value::Object(m) => JsonValue::Object(
            m.iter().map(|(k, x)| (k.clone(), json_model(x))).collect(),
            v.to_string(),
        ),
    }
}

/// `serde_json::from_str::<serde_json::Value>(text).ok()`, in the library's
/// JSON model. The result is a function of the text alone (named
/// `json_parsed`).
#[verifier::external_body]
fn parse_json(text: &str) -> (r: Option<JsonValue>)
    ensures
        r == json_parsed(text@),
{
    serde_json::from_str::<serde_json::Value>(text).ok().map(|v| json_model(&v))
}

/// `serde_json::Value::Object` of string members, written with
/// `to_string` (named `json_string_object`).
#[verifier::external_body]
pub(crate) fn json_object_text(pairs: &Vec<(String, String)>) -> (r: String)
    ensures
        r@ == json_string_object(pairs_of(pairs@)),
{
    serde_json::Value::Object(
        pairs.iter().map(|(k, v)| (k.clone(), serde_json::Value::String(v.clone()))).collect(),
    ).to_string()
}

/// Holds parsed fields from a single line.
#[derive(Debug)]
pub enum FieldSource {
    Json(JsonValue),
    Logfmt(FieldMap),
    Regex(FieldMap),
}

/// The fields of a line under a JSON or logfmt parser, or under `Auto` with
/// the given index flags (a regex parser has no fields here: what a regex
/// captures is not stated).
pub open spec fn parsed_fields(line: Seq<char>, parser: PresetParser, flags: Option<u32>) -> Option<FieldSourceView>
    decreases (if parser == PresetParser::Auto { 1int } else { 0int }),
{
    match parser {
        PresetParser::Json => match json_parsed(line) {
            Some(v) => if v is Object {
                Some(FieldSourceView::Json(v))
            } else {
                None
            },
            None => None,
        },
        PresetParser::Logfmt => if logfmt_fields(line).len() == 0 {
            None
        } else {
            Some(FieldSourceView::Logfmt(logfmt_fields(line)))
        },
        PresetParser::Regex => None,
        PresetParser::Auto => match flags {
            Some(f) => if f & FLAG_FORMAT_JSON != 0 {
                parsed_fields(line, PresetParser::Json, None)
            } else if f & FLAG_FORMAT_LOGFMT != 0 {
                parsed_fields(line, PresetParser::Logfmt, None)
            } else {
                None
            },
            None => match parsed_fields(line, PresetParser::Json, None) {
                Some(s) => Some(s),
                None => parsed_fields(line, PresetParser::Logfmt, None),
            },
        },
    }
}

/// The fields of a line as the contracts read them.
pub enum FieldSourceView {
    Json(JsonValue),
    Logfmt(Pairs),
    Regex(Pairs),
}

pub open spec fn source_view(s: FieldSource) -> FieldSourceView {
    match s {
        FieldSource::Json(v) => FieldSourceView::Json(v),
        FieldSource::Logfmt(m) => FieldSourceView::Logfmt(m.view_pairs()),
        FieldSource::Regex(m) => FieldSourceView::Regex(m.view_pairs()),
    }
}

fn extract_json(line: &str) -> (r: Option<FieldSource>)
    ensures
        match (r, parsed_fields(line@, PresetParser::Json, None)) {
            (Some(a), Some(b)) => source_view(a) == b,
            (None, None) => true,
            _ => false,
        },
{
    match parse_json(line) {
        Some(v) => match v {
            JsonValue::Object(entries, text) => Some(FieldSource::Json(JsonValue::Object(entries, text))),
            _ => None,
        },
        None => None,
    }
}

fn extract_logfmt(line: &str) -> (r: Option<FieldSource>)
    ensures
        match (r, parsed_fields(line@, PresetParser::Logfmt, None)) {
            (Some(a), Some(b)) => source_view(a) == b,
            (None, None) => true,
            _ => false,
        },
{
    let fields = parse_logfmt(line);
    if fields.is_empty() {
        None
    } else {
        Some(FieldSource::Logfmt(fields))
    }
}

/// The fields that the capture groups of a match give: each named group
/// that took part sets its name to the text it matched, in group order (a
/// later group of the same name replaces the value).
pub open spec fn capture_fields(caps: Seq<(Option<Seq<char>>, Option<Seq<char>>)>) -> Pairs
    decreases caps.len(),
{
    if caps.len() == 0 {
        Seq::empty()
    } else {
        let rest = capture_fields(caps.drop_last());
        match caps.last() {
            (Some(name), Some(text)) => pairs_insert(rest, name, text),
            _ => rest,
        }
    }
}

/// The fields of a line under a regex parser with the given pattern: the
/// named groups of its match (none without a regex or a match).
pub open spec fn regex_fields_of(pattern: Option<Seq<char>>, line: Seq<char>) -> Option<FieldSourceView> {
    match pattern {
        Some(p) => match regex_captures_of(p, line) {
            Some(c) => Some(FieldSourceView::Regex(capture_fields(c))),
            None => None,
        },
        None => None,
    }
}

/// The field map of the capture groups of a match.
fn fields_of_captures(caps: Vec<(Option<String>, Option<String>)>) -> (r: FieldMap)
    ensures
        r.view_pairs() == capture_fields(captures_view(caps@)),
{
    let ghost all = caps@;
    let mut map = FieldMap::new();
    let mut i: usize = 0;
    let n = caps.len();
    let mut caps = caps;
    while i < n
        invariant
            n == all.len(),
            i <= n,
            caps@ == all.skip(i as int),
            map.view_pairs() == capture_fields(captures_view(all.take(i as int))),
        decreases n - i,
    {
        let group = caps.remove(0);
        assert(caps@ =~= all.skip(i + 1));
        proof {
            assert(group == all[i as int]);
            assert(captures_view(all.take(i + 1)).drop_last() =~= captures_view(all.take(i as int)));
            assert(captures_view(all.take(i + 1)).last() == captures_view(all)[i as int]);
        }
        match group {
            (Some(name), Some(text)) => map.insert(name, text),
            _ => {},
        }
        i = i + 1;
    }
    assert(all.take(n as int) =~= all);
    map
}

/// The pattern of an optional regex reference.
pub open spec fn opt_pattern(regex: Option<&PatternRegex>) -> Option<Seq<char>> {
    match regex {
        Some(re) => Some(re.pattern()),
        None => None,
    }
}

/// The named groups that took part in a regex match, as fields; `None` when
/// the regex does not match.
fn regex_fields(re: &PatternRegex, line: &str) -> (r: Option<FieldSource>)
    ensures
        match (r, regex_fields_of(Some(re.pattern()), line@)) {
            (Some(a), Some(b)) => source_view(a) == b,
            (None, None) => true,
            _ => false,
        },
{
    let caps = match regex_captures(re, line) {
        Some(c) => c,
        None => return None,
    };
    let map = fields_of_captures(caps);
    Some(FieldSource::Regex(map))
}

/// Unified field extraction entry point.
pub fn extract_fields(line: &str, parser: &PresetParser, regex: Option<&PatternRegex>, flags: Option<u32>) -> (r: Option<FieldSource>)
    ensures
        *parser != PresetParser::Regex ==> match (r, parsed_fields(line@, *parser, flags)) {
            (Some(a), Some(b)) => source_view(a) == b,
            (None, None) => true,
            _ => false,
        },
        *parser == PresetParser::Regex ==> match (r, regex_fields_of(opt_pattern(regex), line@)) {
            (Some(a), Some(b)) => source_view(a) == b,
            (None, None) => true,
            _ => false,
        },
{
    match parser {
        PresetParser::Json => extract_json(line),
        PresetParser::Logfmt => extract_logfmt(line),
        PresetParser::Regex => match regex {
            Some(re) => regex_fields(re, line),
            None => None,
        },
        PresetParser::Auto => match flags {
            Some(f) => {
                if f & FLAG_FORMAT_JSON != 0 {
                    extract_json(line)
                } else if f & FLAG_FORMAT_LOGFMT != 0 {
                    extract_logfmt(line)
                } else {
                    None
                }
            },
            None => match extract_json(line) {
                Some(source) => Some(source),
                None => extract_logfmt(line),
            },
        },
    }
}

/// The value of a field in the parsed fields.
pub open spec fn field_value(source: FieldSourceView, name: Seq<char>) -> Option<Seq<char>> {
    match source {
        FieldSourceView::Json(v) => json_field(v, name),
        FieldSourceView::Logfmt(p) => pairs_get(p, name),
        FieldSourceView::Regex(p) => pairs_get(p, name),
    }
}

/// Extracts a single field value from a FieldSource.
pub fn get_field(source: &FieldSource, field_name: &str) -> (r: Option<String>)
    ensures
        match (r, field_value(source_view(*source), field_name@)) {
            (Some(a), Some(b)) => a@ == b,
            (None, None) => true,
            _ => false,
        },
{
    match source {
        FieldSource::Json(val) => extract_json_field(val, field_name),
        FieldSource::Logfmt(map) => map.get(field_name),
        FieldSource::Regex(map) => map.get(field_name),
    }
}

/// Lexicographic order of texts by code point (the byte order of their UTF-8
/// encodings, which `String` comparison uses).
pub open spec fn key_lt(a: Seq<char>, b: Seq<char>) -> bool
    decreases a.len(),
{
    if a.len() == 0 {
        b.len() > 0
    } else if b.len() == 0 {
        false
    } else if a[0] != b[0] {
        (a[0] as u32) < (b[0] as u32)
    } else {
        key_lt(a.drop_first(), b.drop_first())
    }
}

/// `key_lt` is a strict total order.
pub proof fn lemma_key_order(a: Seq<char>, b: Seq<char>, c: Seq<char>)
    ensures
        !key_lt(a, a),
        key_lt(a, b) && key_lt(b, c) ==> key_lt(a, c),
        a != b ==> key_lt(a, b) || key_lt(b, a),
    decreases a.len(),
{
    if a.len() > 0 && b.len() > 0 && c.len() > 0 {
        lemma_key_order(a.drop_first(), b.drop_first(), c.drop_first());
    } else if a.len() > 0 && b.len() > 0 {
        lemma_key_order(a.drop_first(), b.drop_first(), b.drop_first());
    } else if a.len() > 0 {
        lemma_key_order(a.drop_first(), a.drop_first(), a.drop_first());
    }
    if a.len() > 0 && b.len() > 0 && a[0] == b[0] && a.drop_first() == b.drop_first() {
        assert(a == seq![a[0]] + a.drop_first());
        assert(b == seq![b[0]] + b.drop_first());
    }
    if a.len() == 0 && b.len() == 0 {
        assert(a == b);
    }
    if a.len() > 0 && b.len() > 0 && a[0] != b[0] {
        vstd::utf8::char_u32_cast(a[0], a[0] as u32);
        vstd::utf8::char_u32_cast(b[0], b[0] as u32);
    }
}

fn text_lt(a: &String, b: &String) -> (r: bool)
    ensures
        r == key_lt(a@, b@),
{
    let x = str_chars(a.as_str());
    let y = str_chars(b.as_str());
    let mut i: usize = 0;
    assert(x@.skip(0) == x@ && y@.skip(0) == y@);
    while i < x.len() && i < y.len() && x[i] == y[i]
        invariant
            i <= x@.len(),
            i <= y@.len(),
            key_lt(x@.skip(i as int), y@.skip(i as int)) == key_lt(a@, b@),
            x@ == a@,
            y@ == b@,
        decreases x@.len() - i,
    {
        assert(x@.skip(i as int).drop_first() == x@.skip(i + 1));
        assert(y@.skip(i as int).drop_first() == y@.skip(i + 1));
        i = i + 1;
    }
    if i == x.len() {
        i < y.len()
    } else if i == y.len() {
        false
    } else {
        (x[i] as u32) < (y[i] as u32)
    }
}

/// Keys in non-decreasing order.
pub open spec fn sorted_by_key(p: Pairs) -> bool {
    forall|i: int, j: int| 0 <= i < j < p.len() ==> !key_lt(#[trigger] p[j].0, #[trigger] p[i].0)
}

/// Position of the first pair from `i` on whose key is greater than `key`
/// (the length when there is none).
pub open spec fn first_greater(s: Pairs, key: Seq<char>, i: int) -> int
    decreases s.len() - i,
{
    if i < 0 || i >= s.len() {
        s.len() as int
    } else if key_lt(key, s[i].0) {
        i
    } else {
        first_greater(s, key, i + 1)
    }
}

/// `s` with `x` inserted after the pairs whose key is not greater than its
/// own.
pub open spec fn insert_by_key(s: Pairs, x: (Seq<char>, Seq<char>)) -> Pairs {
    s.insert(first_greater(s, x.0, 0), x)
}

/// Stable insertion sort of pairs by key.
pub open spec fn sorted_pairs(p: Pairs) -> Pairs
    decreases p.len(),
{
    if p.len() == 0 {
        seq![]
    } else {
        insert_by_key(sorted_pairs(p.drop_last()), p.last())
    }
}

proof fn lemma_first_greater_range(s: Pairs, key: Seq<char>, i: int)
    requires
        0 <= i <= s.len(),
    ensures
        i <= first_greater(s, key, i) <= s.len(),
    decreases s.len() - i,
{
    if i < s.len() && !key_lt(key, s[i].0) {
        lemma_first_greater_range(s, key, i + 1);
    }
}

/// Insert a pair into a list sorted by key, after the pairs with a key not
/// greater than its own.
pub(crate) fn insert_sorted(out: &mut Vec<(String, String)>, x: (String, String))
    requires
        sorted_by_key(pairs_of(old(out)@)),
    ensures
        sorted_by_key(pairs_of(final(out)@)),
        pairs_of(final(out)@).to_multiset() == pairs_of(old(out)@).to_multiset().insert((x.0@, x.1@)),
        pairs_of(final(out)@) == insert_by_key(pairs_of(old(out)@), (x.0@, x.1@)),
{
    let ghost s = pairs_of(out@);
    let mut k: usize = 0;
    while k < out.len() && !text_lt(&x.0, &out[k].0)
        invariant
            s == pairs_of(out@),
            k <= out@.len(),
            forall|i: int| 0 <= i < k ==> !key_lt(x.0@, #[trigger] s[i].0),
            first_greater(s, x.0@, k as int) == first_greater(s, x.0@, 0),
        decreases out@.len() - k,
    {
        assert(s[k as int] == (out@[k as int].0@, out@[k as int].1@));
        k = k + 1;
    }
    let ghost xv = (x.0@, x.1@);
    if k < out.len() {
        assert(s[k as int] == (out@[k as int].0@, out@[k as int].1@));
    }
    out.insert(k, x);
    assert(pairs_of(out@) =~= s.insert(k as int, xv));
    let ghost t = pairs_of(out@);
    assert forall|i: int, j: int| 0 <= i < j < t.len() implies !key_lt(#[trigger] t[j].0, #[trigger] t[i].0) by {
        if i < k && j == k {
        } else if i == k && j > k {
            lemma_key_order(xv.0, s[k as int].0, s[j - 1].0);
            lemma_key_order(s[j - 1].0, xv.0, s[k as int].0);
            lemma_key_order(s[k as int].0, s[j - 1].0, xv.0);
            lemma_key_order(s[j - 1].0, s[k as int].0, xv.0);
        } else if i < k && j > k {
            assert(!key_lt(s[j - 1].0, s[i].0));
        } else if j < k {
        } else {
            assert(!key_lt(s[j - 1].0, s[i - 1].0));
        }
    }
    proof {
        vstd::seq_lib::to_multiset_insert(s, k as int, xv);
    }
}

/// Whether `key` is one of the consumed field names.
fn is_consumed(consumed: &Vec<String>, key: &String) -> (r: bool)
    ensures
        r == names_of(consumed@).contains(key@),
{
    let mut i: usize = 0;
    while i < consumed.len()
        invariant
            i <= consumed@.len(),
            forall|j: int| 0 <= j < i ==> consumed@[j]@ != key@,
        decreases consumed@.len() - i,
    {
        if str_eq(consumed[i].as_str(), key.as_str()) {
            assert(names_of(consumed@)[i as int] == key@);
            return true;
        }
        i = i + 1;
    }
    proof {
        if names_of(consumed@).contains(key@) {
            let j = choose|j: int| 0 <= j < names_of(consumed@).len() && names_of(consumed@)[j] == key@;
            assert(consumed@[j]@ == key@);
        }
    }
    false
}

pub open spec fn names_of(v: Seq<String>) -> Seq<Seq<char>> {
    v.map_values(|s: String| s@)
}

/// The pairs of `p` whose key is not consumed.
pub open spec fn unconsumed(p: Pairs, consumed: Seq<Seq<char>>) -> Pairs
    decreases p.len(),
{
    if p.len() == 0 {
        seq![]
    } else if consumed.contains(p.last().0) {
        unconsumed(p.drop_last(), consumed)
    } else {
        unconsumed(p.drop_last(), consumed).push(p.last())
    }
}

/// The members of a JSON object with their field text.
pub open spec fn json_members(entries: Seq<(String, JsonValue)>) -> Pairs {
    entries.map_values(|e: (String, JsonValue)| (e.0@, json_text(e.1)))
}

/// All fields of a source as pairs (nothing for a JSON value that is no
/// object).
pub open spec fn source_pairs(source: FieldSourceView) -> Pairs {
    match source {
        FieldSourceView::Json(v) => match v {
            JsonValue::Object(entries, _) => json_members(entries@),
            _ => seq![],
        },
        FieldSourceView::Logfmt(p) => p,
        FieldSourceView::Regex(p) => p,
    }
}

/// The text of a JSON value as a field.
fn json_value_text(v: &JsonValue) -> (r: String)
    ensures
        r@ == json_text(*v),
{
    match v {
        JsonValue::Null => "null".to_string(),
        JsonValue::Bool(b) => if *b {
            "true".to_string()
        } else {
            "false".to_string()
        },
        JsonValue::Number(t) => t.clone(),
        JsonValue::Str(t) => t.clone(),
        JsonValue::Array(_, t) => t.clone(),
        JsonValue::Object(_, t) => t.clone(),
    }
}

/// Returns all fields NOT in the consumed set, sorted by key.
pub fn get_rest_fields(source: &FieldSource, consumed: &Vec<String>) -> (r: Vec<(String, String)>)
    ensures
        pairs_of(r@) == sorted_pairs(unconsumed(source_pairs(source_view(*source)), names_of(consumed@))),
        sorted_by_key(pairs_of(r@)),
        pairs_of(r@).to_multiset() == unconsumed(source_pairs(source_view(*source)), names_of(consumed@)).to_multiset(),
{
    let mut out: Vec<(String, String)> = Vec::new();
    let ghost all = source_pairs(source_view(*source));
    let mut count: usize = 0;
    let n: usize = match source {
        FieldSource::Json(v) => match v {
            JsonValue::Object(entries, _) => entries.len(),
            _ => 0,
        },
        FieldSource::Logfmt(m) => m.len(),
        FieldSource::Regex(m) => m.len(),
    };
    assert(all.len() == n);
    assert(all.take(0) =~= Seq::<(Seq<char>, Seq<char>)>::empty());
    while count < n
        invariant
            n == all.len(),
            all == source_pairs(source_view(*source)),
            count <= n,
            sorted_by_key(pairs_of(out@)),
            pairs_of(out@).to_multiset() == unconsumed(all.take(count as int), names_of(consumed@)).to_multiset(),
            pairs_of(out@) == sorted_pairs(unconsumed(all.take(count as int), names_of(consumed@))),
        decreases n - count,
    {
        let pair: (String, String) = match source {
            FieldSource::Json(v) => match v {
                JsonValue::Object(entries, _) => (entries[count].0.clone(), json_value_text(&entries[count].1)),
                _ => (String::new(), String::new()),
            },
            FieldSource::Logfmt(m) => {
                let ps = m.pairs();
                (ps[count].0.clone(), ps[count].1.clone())
            },
            FieldSource::Regex(m) => {
                let ps = m.pairs();
                (ps[count].0.clone(), ps[count].1.clone())
            },
        };
        assert((pair.0@, pair.1@) == all[count as int]);
        assert(all.take(count + 1).drop_last() == all.take(count as int));
        let ghost u = unconsumed(all.take(count as int), names_of(consumed@));
        if !is_consumed(consumed, &pair.0) {
            assert(u.push(all[count as int]).drop_last() == u);
            insert_sorted(&mut out, pair);
        }
        count = count + 1;
    }
    assert(all.take(n as int) == all);
    out
}

} // verus!
