//! The last active source of each project context, remembered between runs.
//! Reading and writing the session file is the caller's; this module keys
//! the contexts, records a source and caps the number of contexts kept.
use crate::source::{join_path, joined, lazytail_dir, lazytail_dir_under};
use crate::text::str_eq;
use vstd::prelude::*;

verus! {

/// Path of the session file: `~/.config/lazytail/session.json`.
pub fn session_file_path() -> (r: Option<String>)
    ensures
        r matches Some(p) ==> exists|home: Seq<char>| p@ == joined(lazytail_dir_under(home), "session.json"@),
{
    match lazytail_dir() {
        Some(d) => Some(join_path(d.as_str(), "session.json")),
        None => None,
    }
}

/// Maximum number of context entries to keep in the session file.
pub const MAX_CONTEXTS: usize = 100;

/// Key used for non-project (global) context.
pub const GLOBAL_KEY: &'static str = "__global__";

/// The session entry of one context.
#[derive(Debug)]
pub struct ContextEntry {
    pub last_source: String,
}

/// The remembered contexts, oldest first; no key occurs twice.
#[derive(Debug)]
pub struct SessionFile {
    contexts: Vec<(String, ContextEntry)>,
}

/// The key of a project context: the project root's text, or `GLOBAL_KEY`
/// outside any project.
pub fn context_key(project_root: Option<&str>) -> (r: String)
    ensures
        match project_root {
            Some(p) => r@ == p@,
            None => r@ == GLOBAL_KEY@,
        },
{
    match project_root {
        Some(p) => p.to_string(),
        None => GLOBAL_KEY.to_string(),
    }
}

/// Pairs of key and last source, oldest first.
pub open spec fn pairs_view(v: Seq<(String, ContextEntry)>) -> Seq<(Seq<char>, Seq<char>)> {
    v.map_values(|p: (String, ContextEntry)| (p.0@, p.1.last_source@))
}

pub open spec fn keys_distinct(s: Seq<(Seq<char>, Seq<char>)>) -> bool {
    forall|i: int, j: int| 0 <= i < j < s.len() ==> s[i].0 != s[j].0
}

/// The source recorded for `key`.
pub open spec fn lookup(s: Seq<(Seq<char>, Seq<char>)>, key: Seq<char>) -> Option<Seq<char>>
    decreases s.len(),
{
    if s.len() == 0 {
        None
    } else if s.last().0 == key {
        Some(s.last().1)
    } else {
        lookup(s.drop_last(), key)
    }
}

/// `s` without the entry for `key`.
pub open spec fn without_key(s: Seq<(Seq<char>, Seq<char>)>, key: Seq<char>) -> Seq<(Seq<char>, Seq<char>)>
    decreases s.len(),
{
    if s.len() == 0 {
        s
    } else if s.last().0 == key {
        without_key(s.drop_last(), key)
    } else {
        without_key(s.drop_last(), key).push(s.last())
    }
}

/// At most the `MAX_CONTEXTS` newest entries.
pub open spec fn capped(s: Seq<(Seq<char>, Seq<char>)>) -> Seq<(Seq<char>, Seq<char>)> {
    if s.len() > MAX_CONTEXTS {
        s.skip(s.len() - MAX_CONTEXTS)
    } else {
        s
    }
}

/// The contexts after `name` was recorded for `key`: the entry moves to the
/// newest place and the oldest entries beyond `MAX_CONTEXTS` are dropped.
pub open spec fn recorded(s: Seq<(Seq<char>, Seq<char>)>, key: Seq<char>, name: Seq<char>) -> Seq<(Seq<char>, Seq<char>)> {
    capped(without_key(s, key).push((key, name)))
}

proof fn lemma_lookup_without_key(s: Seq<(Seq<char>, Seq<char>)>, key: Seq<char>, other: Seq<char>)
    requires
        other != key,
    ensures
        lookup(without_key(s, key), other) == lookup(s, other),
    decreases s.len(),
{
    if s.len() > 0 {
        lemma_lookup_without_key(s.drop_last(), key, other);
        if s.last().0 != key {
            assert(without_key(s, key).drop_last() == without_key(s.drop_last(), key));
        }
    }
}

proof fn lemma_lookup_skip(t: Seq<(Seq<char>, Seq<char>)>, k: int, key: Seq<char>)
    requires
        0 <= k <= t.len(),
    ensures
        lookup(t.skip(k), key) is None || lookup(t.skip(k), key) == lookup(t, key),
    decreases t.len(),
{
    if k < t.len() {
        assert(t.skip(k).drop_last() == t.drop_last().skip(k));
        assert(t.skip(k).last() == t.last());
        lemma_lookup_skip(t.drop_last(), k, key);
    } else {
        assert(t.skip(k).len() == 0);
    }
}

/// After recording a source for a context, reading that context gives it
/// back; no more than `MAX_CONTEXTS` contexts are kept; any other context
/// either keeps its source or has been dropped as one of the oldest.
pub proof fn lemma_record_then_lookup(
    s: Seq<(Seq<char>, Seq<char>)>,
    key: Seq<char>,
    name: Seq<char>,
    other: Seq<char>,
)
    ensures
        lookup(recorded(s, key, name), key) == Some(name),
        recorded(s, key, name).len() <= MAX_CONTEXTS,
        other != key ==> (lookup(recorded(s, key, name), other) is None || lookup(recorded(s, key, name), other)
            == lookup(s, other)),
{
    let t = without_key(s, key).push((key, name));
    assert(t.drop_last() == without_key(s, key));
    if t.len() > MAX_CONTEXTS {
        let u = t.skip(t.len() - MAX_CONTEXTS);
        assert(u.last() == t.last());
        lemma_lookup_skip(t, t.len() - MAX_CONTEXTS, other);
    }
    if other != key {
        lemma_lookup_without_key(s, key, other);
    }
}

impl SessionFile {
    #[verifier::type_invariant]
    spec fn distinct(self) -> bool {
        keys_distinct(pairs_view(self.contexts@))
    }

    /// The contexts, oldest first, as (key, last source) pairs.
    pub closed spec fn entries(self) -> Seq<(Seq<char>, Seq<char>)> {
        pairs_view(self.contexts@)
    }

    /// A session without contexts.
    pub fn new() -> (r: Self)
        ensures
            r.entries() == Seq::<(Seq<char>, Seq<char>)>::empty(),
    {
        let s = SessionFile { contexts: Vec::new() };
        assert(pairs_view(s.contexts@) =~= Seq::<(Seq<char>, Seq<char>)>::empty());
        s
    }

    /// Number of contexts remembered.
    pub fn len(&self) -> (r: usize)
        ensures
            r == self.entries().len(),
    {
        self.contexts.len()
    }

    /// The last source recorded for a context key.
    pub fn last_source(&self, key: &str) -> (r: Option<String>)
        ensures
            match (r, lookup(self.entries(), key@)) {
                (Some(a), Some(b)) => a@ == b,
                (None, None) => true,
                _ => false,
            },
    {
        let n = self.contexts.len();
        let mut i: usize = n;
        assert(pairs_view(self.contexts@).take(n as int) == pairs_view(self.contexts@));
        while i > 0
            invariant
                n == self.contexts@.len(),
                i <= n,
                lookup(pairs_view(self.contexts@).take(i as int), key@) == lookup(pairs_view(self.contexts@), key@),
            decreases i,
        {
            let ghost s = pairs_view(self.contexts@).take(i as int);
            assert(s.drop_last() == pairs_view(self.contexts@).take(i - 1));
            if str_eq(self.contexts[i - 1].0.as_str(), key) {
                return Some(self.contexts[i - 1].1.last_source.clone());
            }
            i = i - 1;
        }
        None
    }

    /// The contexts, oldest first, as (key, last source) pairs.
    pub fn pairs(&self) -> (r: Vec<(String, String)>)
        ensures
            r@.map_values(|p: (String, String)| (p.0@, p.1@)) == self.entries(),
    {
        let mut out: Vec<(String, String)> = Vec::new();
        let mut i: usize = 0;
        while i < self.contexts.len()
            invariant
                i <= self.contexts@.len(),
                out@.map_values(|p: (String, String)| (p.0@, p.1@)) == pairs_view(self.contexts@).take(
                    i as int,
                ),
            decreases self.contexts@.len() - i,
        {
            let k = self.contexts[i].0.clone();
            let v = self.contexts[i].1.last_source.clone();
            let ghost prev = out@;
            let ghost kv = (k@, v@);
            assert(kv == pairs_view(self.contexts@)[i as int]);
            out.push((k, v));
            assert(out@.map_values(|p: (String, String)| (p.0@, p.1@)) =~= prev.map_values(
                |p: (String, String)| (p.0@, p.1@),
            ).push(kv));
            assert(pairs_view(self.contexts@).take(i + 1) =~= pairs_view(self.contexts@).take(
                i as int,
            ).push(kv));
            i = i + 1;
            assert(out@.map_values(|p: (String, String)| (p.0@, p.1@)) =~= pairs_view(self.contexts@).take(
                i as int,
            ));
        }
        assert(pairs_view(self.contexts@).take(self.contexts@.len() as int) == pairs_view(self.contexts@));
        out
    }

    /// Record `name` as the last source of the context `key`, keeping at most
    /// `MAX_CONTEXTS` contexts (the oldest are dropped).
    pub fn record_last_source(&mut self, key: String, name: String)
        ensures
            final(self).entries() == recorded(old(self).entries(), key@, name@),
    {
        proof {
            use_type_invariant(&*self);
        }
        let mut old_contexts: Vec<(String, ContextEntry)> = Vec::new();
        std::mem::swap(&mut old_contexts, &mut self.contexts);
        let ghost orig = pairs_view(old_contexts@);
        let mut kept: Vec<(String, ContextEntry)> = Vec::new();
        for p in it: old_contexts.into_iter()
            invariant
                pairs_view(it.seq()) == orig,
                keys_distinct(orig),
                pairs_view(kept@) == without_key(orig.take(it.index() as int), key@),
                keys_distinct(pairs_view(kept@)),
                forall|a: int| 0 <= a < kept@.len() ==> pairs_view(kept@)[a].0 != key@,
                forall|a: int, c: int|
                    0 <= a < kept@.len() && it.index() <= c < orig.len() ==> #[trigger] pairs_view(kept@)[a].0
                        != #[trigger] orig[c].0,
        {
            let ghost j = it.index() as int;
            proof {
                assert(orig.take(j + 1).drop_last() == orig.take(j));
                assert(orig.take(j + 1).last() == orig[j]);
                assert(pairs_view(it.seq())[j] == (p.0@, p.1.last_source@));
            }
            if !str_eq(p.0.as_str(), key.as_str()) {
                let ghost before = pairs_view(kept@);
                kept.push(p);
                proof {
                    assert(pairs_view(kept@) == before.push(orig[j]));
                }
            }
        }
        proof {
            assert(orig.take(orig.len() as int) == orig);
        }
        let ghost filtered = pairs_view(kept@);
        kept.push((key, ContextEntry { last_source: name }));
        assert(pairs_view(kept@) == filtered.push((key@, name@)));
        let total = kept.len();
        if total > MAX_CONTEXTS {
            let excess = total - MAX_CONTEXTS;
            let ghost all = pairs_view(kept@);
            let newest = kept.split_off(excess);
            assert(pairs_view(newest@) =~= all.skip(excess as int));
            self.contexts = newest;
        } else {
            self.contexts = kept;
        }
    }
}

} // verus!
