//! Self-update support: version comparison, freshness of the cached release
//! check, and the install method inferred from the binary's location.
pub mod detection;
use crate::source::{join_path, joined, lazytail_dir, lazytail_dir_under};
use crate::text::parse_u64_spec;
use crate::text::parse_u64_bytes;
use vstd::prelude::*;
use vstd::string::StringSliceAdditionalSpecFns;

verus! {

/// Path of the cached update check: `~/.config/lazytail/update_check.json`.
pub fn cache_path() -> (r: Option<String>)
    ensures
        r matches Some(p) ==> exists|home: Seq<char>| p@ == joined(lazytail_dir_under(home), "update_check.json"@),
{
    match lazytail_dir() {
        Some(d) => Some(join_path(d.as_str(), "update_check.json")),
        None => None,
    }
}

/// How long a cached update check remains valid (24 hours).
pub const CACHE_TTL_SECS: u64 = 86400;

/// Information about an available update.
#[derive(Debug, Clone)]
pub struct UpdateInfo {
    pub current_version: String,
    pub latest_version: String,
    pub release_url: String,
}

/// How lazytail was installed, affecting how updates should be performed.
#[derive(Debug, Clone)]
pub enum InstallMethod {
    /// Installed via direct download (GitHub release) — can self-replace.
    SelfManaged,
    /// Installed via a package manager — user should update through it.
    PackageManager { name: String, upgrade_cmd: String },
}

/// Cached result of a GitHub release check.
#[derive(Debug)]
pub struct UpdateCheckCache {
    pub checked_at: u64,
    pub latest_version: String,
    pub release_url: String,
}

/// Whether a check made at `checked_at` is still fresh at `now` (epoch
/// seconds): less than `CACHE_TTL_SECS` old, a check from the future counting
/// as new.
pub open spec fn is_fresh(checked_at: u64, now: u64) -> bool {
    (if now >= checked_at { now - checked_at } else { 0 }) < CACHE_TTL_SECS
}

/// The cached check, if it is still fresh at `now` (the decision of
/// `load_cache`, once the cache file has been read).
pub fn cache_if_fresh(cache: UpdateCheckCache, now: u64) -> (r: Option<UpdateCheckCache>)
    ensures
        is_fresh(cache.checked_at, now) ==> r == Some(cache),
        !is_fresh(cache.checked_at, now) ==> r is None,
{
    if now.saturating_sub(cache.checked_at) < CACHE_TTL_SECS {
        Some(cache)
    } else {
        None
    }
}

/// The update information that a fresh cached check gives, for the running
/// `current_version`; `None` when there is no cache or it is stale, and the
/// releases must be fetched.
pub fn cached_update_info(cache: Option<UpdateCheckCache>, now: u64, current_version: String) -> (r: Option<UpdateInfo>)
    ensures
        match cache {
            Some(c) => if is_fresh(c.checked_at, now) {
                r == Some(
                    UpdateInfo {
                        current_version: current_version,
                        latest_version: c.latest_version,
                        release_url: c.release_url,
                    },
                )
            } else {
                r is None
            },
            None => r is None,
        },
{
    match cache {
        Some(c) => match cache_if_fresh(c, now) {
            Some(c) => Some(
                UpdateInfo {
                    current_version,
                    latest_version: c.latest_version,
                    release_url: c.release_url,
                },
            ),
            None => None,
        },
        None => None,
    }
}

/// The cache record of a check completed at `now`.
pub fn cache_record(info: &UpdateInfo, now: u64) -> (r: UpdateCheckCache)
    ensures
        r.checked_at == now,
        r.latest_version@ == info.latest_version@,
        r.release_url@ == info.release_url@,
{
    UpdateCheckCache {
        checked_at: now,
        latest_version: info.latest_version.clone(),
        release_url: info.release_url.clone(),
    }
}

/// The bytes of a version string after its leading `v` characters.
pub open spec fn trim_v(b: Seq<u8>) -> Seq<u8>
    decreases b.len(),
{
    if b.len() > 0 && b[0] == 118 {
        trim_v(b.drop_first())
    } else {
        b
    }
}

/// The `.`-separated fields of `b` (`str::split('.')`): one more field than
/// there are dots.
pub open spec fn dot_fields(b: Seq<u8>) -> Seq<Seq<u8>>
    decreases b.len(),
{
    if b.len() == 0 {
        seq![seq![]]
    } else {
        let f = dot_fields(b.drop_last());
        if b.last() == 46 {
            f.push(seq![])
        } else {
            f.update(f.len() - 1, f.last().push(b.last()))
        }
    }
}

/// The fields that parse as `u64`, in order, parsed.
pub open spec fn numeric_fields(fs: Seq<Seq<u8>>) -> Seq<u64>
    decreases fs.len(),
{
    if fs.len() == 0 {
        seq![]
    } else {
        match parse_u64_spec(fs.last()) {
            Some(v) => numeric_fields(fs.drop_last()).push(v as u64),
            None => numeric_fields(fs.drop_last()),
        }
    }
}

/// The numeric components of a version string such as `v1.2.3`.
pub open spec fn version_components(v: Seq<u8>) -> Seq<u64> {
    numeric_fields(dot_fields(trim_v(v)))
}

/// The numeric components of a version text.
pub open spec fn version_of(v: Seq<char>) -> Seq<u64> {
    version_components(vstd::utf8::encode_utf8(v))
}

/// Lexicographic order of component lists (`Vec<u64>` comparison): a proper
/// prefix is smaller.
pub open spec fn lex_less(a: Seq<u64>, b: Seq<u64>) -> bool
    decreases a.len(),
{
    if a.len() == 0 {
        b.len() > 0
    } else if b.len() == 0 {
        false
    } else if a[0] != b[0] {
        a[0] < b[0]
    } else {
        lex_less(a.drop_first(), b.drop_first())
    }
}

proof fn lemma_dot_fields_nonempty(b: Seq<u8>)
    ensures
        dot_fields(b).len() >= 1,
    decreases b.len(),
{
    if b.len() > 0 {
        lemma_dot_fields_nonempty(b.drop_last());
    }
}

/// `dot_fields` of a prefix extended by one byte.
proof fn lemma_dot_fields_step(t: Seq<u8>, i: int, seg: int)
    requires
        0 <= seg <= i < t.len(),
        dot_fields(t.take(i)).last() == t.subrange(seg, i),
    ensures
        t[i] == 46 ==> dot_fields(t.take(i + 1)) == dot_fields(t.take(i)).push(seq![]),
        t[i] != 46 ==> dot_fields(t.take(i + 1)).last() == t.subrange(seg, i + 1),
        t[i] != 46 ==> dot_fields(t.take(i + 1)).drop_last() == dot_fields(t.take(i)).drop_last(),
{
    let p = t.take(i + 1);
    assert(p.drop_last() == t.take(i));
    assert(p.last() == t[i]);
    lemma_dot_fields_nonempty(t.take(i));
    if t[i] != 46 {
        assert(t.subrange(seg, i + 1) == t.subrange(seg, i).push(t[i]));
    }
}

/// Components of the version in `b[k..]`.
fn components(b: &[u8], k: usize) -> (r: Vec<u64>)
    requires
        k <= b@.len(),
    ensures
        r@ == numeric_fields(dot_fields(b@.subrange(k as int, b@.len() as int))),
{
    let ghost t = b@.subrange(k as int, b@.len() as int);
    let mut out: Vec<u64> = Vec::new();
    let mut seg: usize = k;
    let mut i: usize = k;
    proof {
        assert(t.take(0) == Seq::<u8>::empty());
        assert(dot_fields(t.take(0)) == seq![Seq::<u8>::empty()]);
        assert(dot_fields(t.take(0)).drop_last() =~= Seq::<Seq<u8>>::empty());
    }
    while i < b.len()
        invariant
            t == b@.subrange(k as int, b@.len() as int),
            k <= seg <= i <= b@.len(),
            dot_fields(t.take(i - k)).last() == b@.subrange(seg as int, i as int),
            out@ == numeric_fields(dot_fields(t.take(i - k)).drop_last()),
        decreases b@.len() - i,
    {
        let ghost j = (i - k) as int;
        proof {
            assert(t.subrange(seg - k, j) == b@.subrange(seg as int, i as int));
            lemma_dot_fields_step(t, j, seg - k);
            assert(t[j] == b@[i as int]);
        }
        if b[i] == 46 {
            let ghost before = dot_fields(t.take(j));
            match parse_u64_bytes(b, seg, i) {
                Some(v) => out.push(v),
                None => {},
            }
            seg = i + 1;
            proof {
                lemma_dot_fields_nonempty(t.take(j));
                assert(before.push(seq![]).drop_last() == before);
                assert(before == before.drop_last().push(before.last()));
                assert(b@.subrange(seg as int, seg as int) == Seq::<u8>::empty());
            }
        } else {
            proof {
                assert(t.subrange(seg - k, j + 1) == b@.subrange(seg as int, i + 1));
            }
        }
        i = i + 1;
    }
    proof {
        assert(t.take(t.len() as int) == t);
        lemma_dot_fields_nonempty(t);
        let f = dot_fields(t);
        assert(f == f.drop_last().push(f.last()));
    }
    match parse_u64_bytes(b, seg, b.len()) {
        Some(v) => out.push(v),
        None => {},
    }
    out
}

/// Components of a version string, after its leading `v` characters.
fn parse_version(v: &str) -> (r: Vec<u64>)
    ensures
        r@ == version_components(v.spec_bytes()),
{
    let b = v.as_bytes();
    let mut k: usize = 0;
    assert(b@.subrange(0, b@.len() as int) == b@);
    while k < b.len() && b[k] == 118
        invariant
            k <= b@.len(),
            b@ == v.spec_bytes(),
            trim_v(b@.subrange(k as int, b@.len() as int)) == trim_v(b@),
        decreases b@.len() - k,
    {
        proof {
            assert(b@.subrange(k as int, b@.len() as int).drop_first() == b@.subrange(k + 1, b@.len() as int));
        }
        k = k + 1;
    }
    components(b, k)
}

/// Being newer is a strict order on versions: no version is newer than
/// itself, of two versions at most one is newer than the other, and a version
/// newer than one that is newer than a third is newer than the third.
pub proof fn lemma_newer_is_strict_order(a: Seq<u64>, b: Seq<u64>, c: Seq<u64>)
    ensures
        !lex_less(a, a),
        !(lex_less(a, b) && lex_less(b, a)),
        lex_less(a, b) && lex_less(b, c) ==> lex_less(a, c),
    decreases a.len(),
{
    if a.len() > 0 && b.len() > 0 && c.len() > 0 {
        lemma_newer_is_strict_order(a.drop_first(), b.drop_first(), c.drop_first());
    } else if a.len() > 0 && b.len() > 0 {
        lemma_newer_is_strict_order(a.drop_first(), b.drop_first(), b.drop_first());
    } else if a.len() > 0 {
        lemma_newer_is_strict_order(a.drop_first(), a.drop_first(), a.drop_first());
    }
}

/// Two versions with the same components are never newer than each other,
/// and otherwise exactly one of them is newer.
pub proof fn lemma_newer_is_total(a: Seq<u64>, b: Seq<u64>)
    ensures
        a != b ==> (lex_less(a, b) || lex_less(b, a)),
    decreases a.len(),
{
    if a.len() > 0 && b.len() > 0 {
        lemma_newer_is_total(a.drop_first(), b.drop_first());
        if a[0] == b[0] && a.drop_first() == b.drop_first() {
            assert(a == seq![a[0]] + a.drop_first());
            assert(b == seq![b[0]] + b.drop_first());
        }
    } else if a.len() == 0 && b.len() == 0 {
        assert(a == b);
    }
}

/// Compare two semver-like version strings ("X.Y.Z").
/// Returns true if `latest` is strictly newer than `current`.
pub fn version_is_newer(latest: &str, current: &str) -> (r: bool)
    ensures
        r == lex_less(version_of(current@), version_of(latest@)),
{
    let l = parse_version(latest);
    let c = parse_version(current);
    let mut i: usize = 0;
    assert(c@.skip(0) == c@ && l@.skip(0) == l@);
    while i < c.len() && i < l.len() && c[i] == l[i]
        invariant
            i <= c@.len(),
            i <= l@.len(),
            lex_less(c@.skip(i as int), l@.skip(i as int)) == lex_less(c@, l@),
        decreases c@.len() - i,
    {
        proof {
            assert(c@.skip(i as int).drop_first() == c@.skip(i + 1));
            assert(l@.skip(i as int).drop_first() == l@.skip(i + 1));
        }
        i = i + 1;
    }
    if i == c.len() {
        i < l.len()
    } else if i == l.len() {
        false
    } else {
        c[i] < l[i]
    }
}

impl UpdateInfo {
    /// Returns true if the latest version is newer than the current version.
    pub fn is_update_available(&self) -> (r: bool)
        ensures
            r == (self.current_version@ != self.latest_version@ && lex_less(
                version_of(self.current_version@),
                version_of(self.latest_version@),
            )),
    {
        self.current_version != self.latest_version && version_is_newer(
            self.latest_version.as_str(),
            self.current_version.as_str(),
        )
    }
}

} // verus!
