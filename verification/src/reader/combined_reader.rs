use crate::index::{IndexReader, Severity};
use crate::reader::{LogReader, ReaderError};
use vstd::multiset::Multiset;
use vstd::prelude::*;
use vstd::relations::{sorted_by, total_ordering};

verus! {

broadcast use vstd::seq_lib::group_to_multiset_ensures, vstd::multiset::group_multiset_axioms;

/// A merged line reference: which source, which line in that source.
#[derive(Clone, Copy, Debug, PartialEq, Eq, Structural)]
pub struct MergedLine {
    pub source_id: usize,
    pub file_line: usize,
    pub timestamp: u64,
}

/// The merge order: timestamp first, then source order, then line order.
pub open spec fn merged_leq(a: MergedLine, b: MergedLine) -> bool {
    ||| a.timestamp < b.timestamp
    ||| a.timestamp == b.timestamp && a.source_id < b.source_id
    ||| a.timestamp == b.timestamp && a.source_id == b.source_id && a.file_line <= b.file_line
}

pub open spec fn merged_order() -> spec_fn(MergedLine, MergedLine) -> bool {
    |a: MergedLine, b: MergedLine| merged_leq(a, b)
}

/// The merge order is a total order on merged lines.
pub proof fn lemma_merged_order_total()
    ensures
        total_ordering(merged_order()),
{
    assert forall|a: MergedLine, b: MergedLine|
        #[trigger] merged_order()(a, b) && #[trigger] merged_order()(b, a) implies a == b by {}
}

/// `a <= b` in the merge order, computed.
pub fn merged_le(a: &MergedLine, b: &MergedLine) -> (r: bool)
    ensures
        r == merged_leq(*a, *b),
{
    a.timestamp < b.timestamp || (a.timestamp == b.timestamp && (a.source_id < b.source_id || (
    a.source_id == b.source_id && a.file_line <= b.file_line)))
}

/// Merges two sorted runs into one sorted run holding both.
pub fn merge_sorted(a: &Vec<MergedLine>, b: &Vec<MergedLine>) -> (r: Vec<MergedLine>)
    requires
        sorted_by(a@, merged_order()),
        sorted_by(b@, merged_order()),
    ensures
        sorted_by(r@, merged_order()),
        r@.to_multiset() == a@.to_multiset().add(b@.to_multiset()),
{
    proof {
        lemma_merged_order_total();
    }
    let mut r: Vec<MergedLine> = Vec::new();
    let mut i: usize = 0;
    let mut j: usize = 0;
    while i < a.len() || j < b.len()
        invariant
            total_ordering(merged_order()),
            sorted_by(a@, merged_order()),
            sorted_by(b@, merged_order()),
            0 <= i <= a@.len(),
            0 <= j <= b@.len(),
            sorted_by(r@, merged_order()),
            r@.to_multiset() == a@.take(i as int).to_multiset().add(b@.take(j as int).to_multiset()),
            r@.len() > 0 && i < a@.len() ==> merged_leq(r@.last(), a@[i as int]),
            r@.len() > 0 && j < b@.len() ==> merged_leq(r@.last(), b@[j as int]),
        decreases a@.len() + b@.len() - i - j,
    {
        let take_a = j >= b.len() || (i < a.len() && merged_le(&a[i], &b[j]));
        let x = if take_a {
            a[i]
        } else {
            b[j]
        };
        let ghost old_r = r@;
        r.push(x);
        proof {
            assert(r@ == old_r.push(x));
            assert forall|p: int, q: int| 0 <= p < q < r@.len() implies merged_order()(r@[p], r@[q]) by {
                if q == r@.len() - 1 && p < q {
                    assert(merged_leq(old_r.last(), x));
                    if p < old_r.len() - 1 {
                        assert(merged_order()(old_r[p], old_r[old_r.len() - 1]));
                    }
                    assert(merged_leq(old_r[p], old_r.last()));
                } else {
                    assert(merged_order()(old_r[p], old_r[q]));
                }
            }
            if take_a {
                assert(a@.take(i + 1) == a@.take(i as int).push(x));
            } else {
                assert(b@.take(j + 1) == b@.take(j as int).push(x));
            }
        }
        if take_a {
            i = i + 1;
            proof {
                if i < a@.len() {
                    assert(merged_order()(a@[i - 1], a@[i as int]));
                }
                if j < b@.len() {
                    if !merged_leq(x, b@[j as int]) {
                        assert(merged_order()(b@[j as int], x));
                    }
                }
            }
        } else {
            j = j + 1;
            proof {
                if j < b@.len() {
                    assert(merged_order()(b@[j - 1], b@[j as int]));
                }
                if i < a@.len() {
                    if !merged_leq(x, a@[i as int]) {
                        assert(merged_order()(a@[i as int], x));
                    }
                }
            }
        }
    }
    proof {
        assert(a@.take(a@.len() as int) == a@);
        assert(b@.take(b@.len() as int) == b@);
    }
    r
}

/// Sorts merged lines into the merge order.
pub fn merge_sort(v: Vec<MergedLine>) -> (r: Vec<MergedLine>)
    ensures
        sorted_by(r@, merged_order()),
        r@.to_multiset() == v@.to_multiset(),
    decreases v@.len(),
{
    if v.len() <= 1 {
        proof {
            assert forall|p: int, q: int| 0 <= p < q < v@.len() implies merged_order()(v@[p], v@[q]) by {}
        }
        return v;
    }
    let mut left = v;
    let mid = left.len() / 2;
    let right = left.split_off(mid);
    proof {
        assert(v@ == left@ + right@);
        vstd::seq_lib::lemma_multiset_commutative(left@, right@);
    }
    let ls = merge_sort(left);
    let rs = merge_sort(right);
    merge_sorted(&ls, &rs)
}

} // verus!

verus! {

/// Timestamp the index records for a line, if it covers it.
pub open spec fn index_ts(idx: Option<IndexReader>, line: int) -> Option<u64> {
    match idx {
        Some(ir) => if 0 <= line < ir.spec_timestamps().len() {
            Some(ir.spec_timestamps()[line])
        } else {
            None
        },
        None => None,
    }
}

/// Timestamp given to a line when scanning a source from line `start`
/// with carried timestamp `init`: the indexed timestamp when there is one,
/// otherwise the timestamp of the previous line (or `init` at `start`).
pub open spec fn carried_ts(idx: Option<IndexReader>, line: int, start: int, init: u64) -> u64
    decreases line - start,
{
    match index_ts(idx, line) {
        Some(t) => t,
        None => if line <= start {
            init
        } else {
            carried_ts(idx, line - 1, start, init)
        },
    }
}

/// Lines `from..to` of source `sid`, scanned with carried timestamp `init`.
pub open spec fn source_run(sid: usize, idx: Option<IndexReader>, from: int, to: int, init: u64) -> Seq<MergedLine> {
    Seq::new(
        (to - from) as nat,
        |k: int|
            MergedLine {
                source_id: sid,
                file_line: (from + k) as usize,
                timestamp: carried_ts(idx, from + k, from, init),
            },
    )
}

/// A source contributing lines to the combined view.
pub struct SourceEntry<R> {
    pub name: String,
    pub reader: R,
    pub index_reader: Option<IndexReader>,
    pub source_path: Option<String>,
    pub total_lines: usize,
    pub renderer_names: Vec<String>,
}

/// Every line of the first `n` sources, source after source.
pub open spec fn all_lines<R>(sources: Seq<SourceEntry<R>>, n: int) -> Seq<MergedLine>
    decreases n,
{
    if n <= 0 {
        seq![]
    } else {
        all_lines(sources, n - 1) + source_run(
            (n - 1) as usize,
            sources[n - 1].index_reader,
            0,
            sources[n - 1].total_lines as int,
            0,
        )
    }
}

/// Timestamp a scan of lines `from..to` with carried timestamp `init` gives
/// its last line (`init` when the run is empty): the timestamp carried into
/// the line after it.
pub open spec fn run_end_ts(idx: Option<IndexReader>, from: int, to: int, init: u64) -> u64 {
    if to > from {
        carried_ts(idx, to - 1, from, init)
    } else {
        init
    }
}

/// Continuing a scan at line `prev` with the timestamp a full scan gave line
/// `prev - 1` gives every later line the timestamp the full scan gives it.
pub proof fn lemma_resumed_scan_matches_full(idx: Option<IndexReader>, prev: int, line: int)
    requires
        0 <= prev <= line,
    ensures
        carried_ts(idx, line, prev, run_end_ts(idx, 0, prev, 0)) == carried_ts(idx, line, 0, 0),
    decreases line - prev,
{
    if line > prev && index_ts(idx, line) is None {
        lemma_resumed_scan_matches_full(idx, prev, line - 1);
    }
}

/// New lines `prev..total` of a source, scanned from the timestamp a full
/// scan gave line `prev - 1`, are the lines a full rescan gives them, and the
/// timestamp carried past them is the full scan's too: appending after a
/// full build agrees with rebuilding.
pub proof fn lemma_resumed_run_matches_full(sid: usize, idx: Option<IndexReader>, prev: int, total: int)
    requires
        0 <= prev <= total,
    ensures
        source_run(sid, idx, prev, total, run_end_ts(idx, 0, prev, 0)) == source_run(sid, idx, 0, total, 0).subrange(
            prev,
            total,
        ),
        run_end_ts(idx, prev, total, run_end_ts(idx, 0, prev, 0)) == run_end_ts(idx, 0, total, 0),
{
    let init = run_end_ts(idx, 0, prev, 0);
    assert forall|k: int| 0 <= k < total - prev implies #[trigger] source_run(sid, idx, prev, total, init)[k]
        == source_run(sid, idx, 0, total, 0).subrange(prev, total)[k] by {
        lemma_resumed_scan_matches_full(idx, prev, prev + k);
    }
    assert(source_run(sid, idx, prev, total, init) =~= source_run(sid, idx, 0, total, 0).subrange(prev, total));
    if total > prev {
        lemma_resumed_scan_matches_full(idx, prev, total - 1);
    }
}

/// The lines that the first `n` sources gained since their previous totals.
pub open spec fn grown_lines<R>(sources: Seq<SourceEntry<R>>, prev: Seq<usize>, last: Seq<u64>, n: int) -> Seq<MergedLine>
    decreases n,
{
    if n <= 0 {
        seq![]
    } else {
        let s = sources[n - 1];
        grown_lines(sources, prev, last, n - 1) + if s.total_lines > prev[n - 1] {
            source_run(
                (n - 1) as usize,
                s.index_reader,
                prev[n - 1] as int,
                s.total_lines as int,
                last[n - 1],
            )
        } else {
            seq![]
        }
    }
}

/// The first `prev[s]` lines of each of the first `n` sources, source after
/// source: what a build gave when the sources had those totals.
pub open spec fn prefix_lines<R>(sources: Seq<SourceEntry<R>>, prev: Seq<usize>, n: int) -> Seq<MergedLine>
    decreases n,
{
    if n <= 0 {
        seq![]
    } else {
        prefix_lines(sources, prev, n - 1) + source_run(
            (n - 1) as usize,
            sources[n - 1].index_reader,
            0,
            prev[n - 1] as int,
            0,
        )
    }
}

proof fn lemma_lines_split<R>(sources: Seq<SourceEntry<R>>, prev: Seq<usize>, last: Seq<u64>, n: int)
    requires
        0 <= n <= sources.len(),
        prev.len() == sources.len(),
        last.len() == sources.len(),
        forall|s: int| 0 <= s < sources.len() ==> #[trigger] prev[s] <= sources[s].total_lines,
        forall|s: int|
            0 <= s < sources.len() ==> #[trigger] last[s] == run_end_ts(sources[s].index_reader, 0, prev[s] as int, 0),
    ensures
        all_lines(sources, n).to_multiset() =~= prefix_lines(sources, prev, n).to_multiset().add(
            grown_lines(sources, prev, last, n).to_multiset(),
        ),
    decreases n,
{
    broadcast use vstd::multiset::group_multiset_axioms;
    broadcast use vstd::seq_lib::lemma_multiset_commutative;

    if n > 0 {
        lemma_lines_split(sources, prev, last, n - 1);
        let s = n - 1;
        let sid = s as usize;
        let idx = sources[s].index_reader;
        let p = prev[s] as int;
        let tot = sources[s].total_lines as int;
        assert(prev[s] <= sources[s].total_lines);
        assert(last[s] == run_end_ts(idx, 0, p, 0));
        let full = source_run(sid, idx, 0, tot, 0);
        let head = source_run(sid, idx, 0, p, 0);
        let tail = if sources[s].total_lines > prev[s] { source_run(sid, idx, p, tot, last[s]) } else { seq![] };
        lemma_resumed_run_matches_full(sid, idx, p, tot);
        assert(head =~= full.subrange(0, p));
        assert(tail =~= full.subrange(p, tot));
        assert(full =~= head + tail);
        assert(all_lines(sources, n) == all_lines(sources, n - 1) + full);
        assert(prefix_lines(sources, prev, n) == prefix_lines(sources, prev, n - 1) + head);
        assert(grown_lines(sources, prev, last, n) == grown_lines(sources, prev, last, n - 1) + tail);
        assert((head + tail).to_multiset() =~= head.to_multiset().add(tail.to_multiset()));
    }
}

/// A build of no sources holds no lines.
proof fn lemma_empty_build<R>(sources: Seq<SourceEntry<R>>)
    requires
        sources.len() == 0,
    ensures
        all_lines(sources, 0).sort_by(merged_order()) == Seq::<MergedLine>::empty(),
{
    lemma_merged_order_total();
    let e = all_lines(sources, 0);
    assert(e =~= Seq::<MergedLine>::empty());
    e.lemma_sort_by_ensures(merged_order());
    assert(e.sort_by(merged_order()).to_multiset().len() == 0);
    assert(e.sort_by(merged_order()) =~= Seq::<MergedLine>::empty());
}

/// The lines of a build depend only on the sources' line totals and indexes.
proof fn lemma_all_lines_same_shape<R>(a: Seq<SourceEntry<R>>, b: Seq<SourceEntry<R>>, n: int)
    requires
        n <= a.len(),
        a.len() == b.len(),
        forall|i: int|
            0 <= i < a.len() ==> (#[trigger] a[i]).total_lines == b[i].total_lines && a[i].index_reader
                == b[i].index_reader,
    ensures
        all_lines(a, n) == all_lines(b, n),
    decreases n,
{
    if n > 0 {
        lemma_all_lines_same_shape(a, b, n - 1);
        assert(a[n - 1].total_lines == b[n - 1].total_lines && a[n - 1].index_reader == b[n - 1].index_reader);
    }
}

/// The first `prev[s]` lines of each source, when `prev` holds the totals an
/// earlier state of the same sources had, are the lines a build of that
/// state gave.
proof fn lemma_prefix_is_earlier_build<R>(earlier: Seq<SourceEntry<R>>, now: Seq<SourceEntry<R>>, prev: Seq<usize>, n: int)
    requires
        n <= earlier.len(),
        earlier.len() == now.len(),
        prev.len() == now.len(),
        forall|i: int|
            0 <= i < now.len() ==> (#[trigger] now[i]).index_reader == earlier[i].index_reader && prev[i]
                == earlier[i].total_lines,
    ensures
        prefix_lines(now, prev, n) == all_lines(earlier, n),
    decreases n,
{
    if n > 0 {
        lemma_prefix_is_earlier_build(earlier, now, prev, n - 1);
        assert(now[n - 1].index_reader == earlier[n - 1].index_reader && prev[n - 1] == earlier[n - 1].total_lines);
    }
}

/// Merging the lines the sources gained since their previous totals into the
/// merge of their earlier lines, each source's scan carried on from the
/// timestamp its last earlier line got, gives what a rebuild from all lines
/// gives.
pub proof fn lemma_append_matches_rebuild<R>(sources: Seq<SourceEntry<R>>, prev: Seq<usize>, last: Seq<u64>)
    requires
        prev.len() == sources.len(),
        last.len() == sources.len(),
        forall|s: int| 0 <= s < sources.len() ==> #[trigger] prev[s] <= sources[s].total_lines,
        forall|s: int|
            0 <= s < sources.len() ==> #[trigger] last[s] == run_end_ts(sources[s].index_reader, 0, prev[s] as int, 0),
    ensures
        (prefix_lines(sources, prev, sources.len() as int).sort_by(merged_order()) + grown_lines(
            sources,
            prev,
            last,
            sources.len() as int,
        )).sort_by(merged_order()) == all_lines(sources, sources.len() as int).sort_by(merged_order()),
{
    broadcast use vstd::multiset::group_multiset_axioms;
    broadcast use vstd::seq_lib::lemma_multiset_commutative;

    let n = sources.len() as int;
    let pre = prefix_lines(sources, prev, n);
    let gr = grown_lines(sources, prev, last, n);
    let all = all_lines(sources, n);
    let a = pre.sort_by(merged_order());
    lemma_merged_order_total();
    pre.lemma_sort_by_ensures(merged_order());
    (a + gr).lemma_sort_by_ensures(merged_order());
    all.lemma_sort_by_ensures(merged_order());
    lemma_lines_split(sources, prev, last, n);
    assert((a + gr).to_multiset() =~= a.to_multiset().add(gr.to_multiset()));
    vstd::seq_lib::lemma_sorted_unique(
        (a + gr).sort_by(merged_order()),
        all.sort_by(merged_order()),
        merged_order(),
    );
}

pub proof fn lemma_all_lines_sources<R>(sources: Seq<SourceEntry<R>>, n: int)
    requires
        n <= sources.len(),
    ensures
        forall|i: int| 0 <= i < all_lines(sources, n).len() ==> #[trigger] all_lines(sources, n)[i].source_id < n,
    decreases n,
{
    if n > 0 {
        lemma_all_lines_sources(sources, n - 1);
        let a = all_lines(sources, n - 1);
        let b = source_run((n - 1) as usize, sources[n - 1].index_reader, 0, sources[n - 1].total_lines as int, 0);
        assert forall|i: int| 0 <= i < all_lines(sources, n).len() implies #[trigger] all_lines(sources, n)[i].source_id < n by {
            if i < a.len() {
                assert(all_lines(sources, n)[i] == a[i]);
            } else {
                assert(all_lines(sources, n)[i] == b[i - a.len()]);
            }
        }
    }
}

pub proof fn lemma_grown_lines_sources<R>(sources: Seq<SourceEntry<R>>, prev: Seq<usize>, last: Seq<u64>, n: int)
    requires
        n <= sources.len(),
        prev.len() == sources.len(),
    ensures
        forall|i: int|
            0 <= i < grown_lines(sources, prev, last, n).len() ==> #[trigger] grown_lines(sources, prev, last, n)[i].source_id < n,
    decreases n,
{
    if n > 0 {
        lemma_grown_lines_sources(sources, prev, last, n - 1);
        let a = grown_lines(sources, prev, last, n - 1);
        let g = grown_lines(sources, prev, last, n);
        assert forall|i: int| 0 <= i < g.len() implies #[trigger] g[i].source_id < n by {
            if i < a.len() {
                assert(g[i] == a[i]);
            }
        }
    }
}

/// Smallest position whose element is above `x` in the merge order.
pub fn partition_point(v: &Vec<MergedLine>, x: &MergedLine) -> (pos: usize)
    requires
        sorted_by(v@, merged_order()),
    ensures
        pos <= v@.len(),
        forall|i: int| 0 <= i < pos ==> merged_leq(#[trigger] v@[i], *x),
        forall|i: int| pos <= i < v@.len() ==> !merged_leq(#[trigger] v@[i], *x),
{
    proof {
        lemma_merged_order_total();
    }
    let mut lo: usize = 0;
    let mut hi: usize = v.len();
    while lo < hi
        invariant
            total_ordering(merged_order()),
            sorted_by(v@, merged_order()),
            0 <= lo <= hi <= v@.len(),
            forall|i: int| 0 <= i < lo ==> merged_leq(#[trigger] v@[i], *x),
            forall|i: int| hi <= i < v@.len() ==> !merged_leq(#[trigger] v@[i], *x),
        decreases hi - lo,
    {
        let mid = lo + (hi - lo) / 2;
        if merged_le(&v[mid], x) {
            proof {
                assert forall|i: int| 0 <= i < mid + 1 implies merged_leq(#[trigger] v@[i], *x) by {
                    if i < mid {
                        assert(merged_order()(v@[i], v@[mid as int]));
                    }
                }
            }
            lo = mid + 1;
        } else {
            proof {
                assert forall|i: int| mid <= i < v@.len() implies !merged_leq(#[trigger] v@[i], *x) by {
                    if i > mid {
                        assert(merged_order()(v@[mid as int], v@[i]));
                    }
                }
            }
            hi = mid;
        }
    }
    lo
}

/// Inserting at the partition point keeps a sorted run sorted.
proof fn lemma_insert_sorted(v: Seq<MergedLine>, pos: int, x: MergedLine)
    requires
        sorted_by(v, merged_order()),
        0 <= pos <= v.len(),
        forall|i: int| 0 <= i < pos ==> merged_leq(#[trigger] v[i], x),
        forall|i: int| pos <= i < v.len() ==> !merged_leq(#[trigger] v[i], x),
    ensures
        sorted_by(v.insert(pos, x), merged_order()),
{
    let w = v.insert(pos, x);
    assert forall|p: int, q: int| 0 <= p < q < w.len() implies merged_order()(w[p], w[q]) by {
        if p < pos && q < pos + 1 {
            if q < pos {
                assert(merged_order()(v[p], v[q]));
            }
        } else if p < pos {
            assert(merged_order()(v[p], v[q - 1]));
        } else if p == pos {
            assert(!merged_leq(v[q - 1], x));
        } else {
            assert(merged_order()(v[p - 1], v[q - 1]));
        }
    }
}

/// A reader that merges lines from multiple sources in chronological order.
///
/// Implements `LogReader` so it works transparently with the existing
/// rendering pipeline, viewport, and filter infrastructure.
pub struct CombinedReader<R: LogReader> {
    sources: Vec<SourceEntry<R>>,
    merged: Vec<MergedLine>,
    /// Previous total_lines per source, for incremental append on reload.
    prev_totals: Vec<usize>,
    /// Timestamp the merge gave the last merged line of each source (0 when
    /// it has none), carried forward into its next new lines.
    last_ts: Vec<u64>,
}

impl<R: LogReader> CombinedReader<R> {
    #[verifier::type_invariant]
    spec fn inv(self) -> bool {
        &&& self.prev_totals@.len() == self.sources@.len()
        &&& self.last_ts@.len() == self.sources@.len()
        &&& sorted_by(self.merged@, merged_order())
        &&& forall|i: int| 0 <= i < self.merged@.len() ==> #[trigger] self.merged@[i].source_id < self.sources@.len()
        &&& self.merged@ == all_lines(self.sources@, self.sources@.len() as int).sort_by(merged_order())
        &&& forall|i: int|
            0 <= i < self.sources@.len() ==> #[trigger] self.last_ts@[i] == run_end_ts(
                self.sources@[i].index_reader,
                0,
                self.sources@[i].total_lines as int,
                0,
            )
    }

    /// The sources, in the order they were given.
    pub closed spec fn spec_sources(&self) -> Seq<SourceEntry<R>> {
        self.sources@
    }

    /// The merged line references, in display order.
    pub closed spec fn spec_merged(&self) -> Seq<MergedLine> {
        self.merged@
    }

    /// Line totals the sources had at the previous reload.
    pub closed spec fn spec_prev_totals(&self) -> Seq<usize> {
        self.prev_totals@
    }

    /// Timestamp the merge gave each source's last merged line.
    pub closed spec fn spec_last_ts(&self) -> Seq<u64> {
        self.last_ts@
    }

    pub fn new(sources: Vec<SourceEntry<R>>) -> (r: Self)
        ensures
            r.spec_sources() == sources@,
            r.spec_merged() == all_lines(sources@, sources@.len() as int).sort_by(merged_order()),
            r.spec_prev_totals() == sources@.map_values(|s: SourceEntry<R>| s.total_lines),
            r.spec_last_ts().len() == sources@.len(),
            forall|i: int|
                0 <= i < sources@.len() ==> #[trigger] r.spec_last_ts()[i] == run_end_ts(
                    sources@[i].index_reader,
                    0,
                    sources@[i].total_lines as int,
                    0,
                ),
    {
        let mut prev_totals: Vec<usize> = Vec::new();
        let mut i: usize = 0;
        while i < sources.len()
            invariant
                0 <= i <= sources@.len(),
                prev_totals@ == sources@.subrange(0, i as int).map_values(|s: SourceEntry<R>| s.total_lines),
            decreases sources@.len() - i,
        {
            prev_totals.push(sources[i].total_lines);
            i = i + 1;
            proof {
                assert(sources@.subrange(0, i as int).map_values(|s: SourceEntry<R>| s.total_lines)
                    =~= sources@.subrange(0, i - 1).map_values(|s: SourceEntry<R>| s.total_lines).push(sources@[i - 1].total_lines));
            }
        }
        proof {
            assert(sources@.subrange(0, sources@.len() as int) == sources@);
        }
        let (merged, last_ts) = Self::build_merged(&sources);
        CombinedReader { sources, merged, prev_totals, last_ts }
    }

    /// Get the timestamp for a line, carrying forward the last known timestamp
    /// from the same source when the index hasn't caught up yet.
    fn get_timestamp(source: &SourceEntry<R>, line: usize, last_ts: &mut u64) -> (ts: u64)
        ensures
            ts == match index_ts(source.index_reader, line as int) {
                Some(t) => t,
                None => *old(last_ts),
            },
            *final(last_ts) == ts,
    {
        let ts = match &source.index_reader {
            Some(ir) => match ir.get_timestamp(line) {
                Some(t) => t,
                None => *last_ts,
            },
            None => *last_ts,
        };
        *last_ts = ts;
        ts
    }

    /// Appends lines `from..to` of source `sid` with carried timestamp `init`.
    fn push_run(out: &mut Vec<MergedLine>, sid: usize, source: &SourceEntry<R>, from: usize, to: usize, init: u64) -> (end: u64)
        requires
            from <= to,
        ensures
            final(out)@ == old(out)@ + source_run(sid, source.index_reader, from as int, to as int, init),
            end == run_end_ts(source.index_reader, from as int, to as int, init),
    {
        let mut last_ts: u64 = init;
        let mut line: usize = from;
        let ghost base = old(out)@;
        while line < to
            invariant
                from <= line <= to,
                out@ == base + source_run(sid, source.index_reader, from as int, line as int, init),
                line == from ==> last_ts == init,
                line > from ==> last_ts == carried_ts(source.index_reader, line - 1, from as int, init),
            decreases to - line,
        {
            let ts = Self::get_timestamp(source, line, &mut last_ts);
            let m = MergedLine { source_id: sid, file_line: line, timestamp: ts };
            proof {
                assert(ts == carried_ts(source.index_reader, line as int, from as int, init));
                assert(source_run(sid, source.index_reader, from as int, line + 1, init)
                    =~= source_run(sid, source.index_reader, from as int, line as int, init).push(m));
            }
            out.push(m);
            line = line + 1;
        }
        proof {
            assert(out@ == base + source_run(sid, source.index_reader, from as int, to as int, init));
        }
        last_ts
    }

    /// Rebuild the merged line list from all sources, sorted by timestamp.
    fn build_merged(sources: &Vec<SourceEntry<R>>) -> (r: (Vec<MergedLine>, Vec<u64>))
        ensures
            r.0@ == all_lines(sources@, sources@.len() as int).sort_by(merged_order()),
            sorted_by(r.0@, merged_order()),
            forall|i: int| 0 <= i < r.0@.len() ==> #[trigger] r.0@[i].source_id < sources@.len(),
            r.1@.len() == sources@.len(),
            forall|i: int|
                0 <= i < sources@.len() ==> #[trigger] r.1@[i] == run_end_ts(
                    sources@[i].index_reader,
                    0,
                    sources@[i].total_lines as int,
                    0,
                ),
    {
        let mut all: Vec<MergedLine> = Vec::new();
        let mut lasts: Vec<u64> = Vec::new();
        let mut sid: usize = 0;
        while sid < sources.len()
            invariant
                0 <= sid <= sources@.len(),
                all@ == all_lines(sources@, sid as int),
                lasts@.len() == sid,
                forall|i: int|
                    0 <= i < sid ==> #[trigger] lasts@[i] == run_end_ts(
                        sources@[i].index_reader,
                        0,
                        sources@[i].total_lines as int,
                        0,
                    ),
            decreases sources@.len() - sid,
        {
            let end = Self::push_run(&mut all, sid, &sources[sid], 0, sources[sid].total_lines, 0);
            lasts.push(end);
            sid = sid + 1;
        }
        let sorted = merge_sort(all);
        proof {
            lemma_merged_order_total();
            let spec_all = all_lines(sources@, sources@.len() as int);
            spec_all.lemma_sort_by_ensures(merged_order());
            vstd::seq_lib::lemma_sorted_unique(sorted@, spec_all.sort_by(merged_order()), merged_order());
            lemma_all_lines_sources(sources@, sources@.len() as int);
            assert forall|i: int| 0 <= i < sorted@.len() implies #[trigger] sorted@[i].source_id < sources@.len() by {
                assert(sorted@.to_multiset().count(sorted@[i]) > 0);
                assert(spec_all.contains(sorted@[i]));
            }
        }
        (sorted, lasts)
    }
}


impl<R: LogReader> CombinedReader<R> {
    /// Append only new lines from sources that grew since the last reload.
    ///
    /// Collects new lines into a small temp vec, sorts it, then merges into
    /// the already-sorted `merged` list: a plain append when every new line
    /// sorts after the existing ones, a binary insert per line when there are
    /// few of them, a full merge otherwise.
    fn append_new_lines(
        sources: &Vec<SourceEntry<R>>,
        prev_totals: &Vec<usize>,
        last_ts: &Vec<u64>,
        merged: Vec<MergedLine>,
    ) -> (r: (Vec<MergedLine>, Vec<u64>))
        requires
            prev_totals@.len() == sources@.len(),
            last_ts@.len() == sources@.len(),
            sorted_by(merged@, merged_order()),
            forall|i: int| 0 <= i < merged@.len() ==> #[trigger] merged@[i].source_id < sources@.len(),
        ensures
            r.0@ == (merged@ + grown_lines(sources@, prev_totals@, last_ts@, sources@.len() as int)).sort_by(
                merged_order(),
            ),
            sorted_by(r.0@, merged_order()),
            forall|i: int| 0 <= i < r.0@.len() ==> #[trigger] r.0@[i].source_id < sources@.len(),
            r.1@.len() == sources@.len(),
            forall|i: int|
                0 <= i < sources@.len() ==> #[trigger] r.1@[i] == run_end_ts(
                    sources@[i].index_reader,
                    prev_totals@[i] as int,
                    sources@[i].total_lines as int,
                    last_ts@[i],
                ),
    {
        proof {
            lemma_merged_order_total();
        }
        let mut new_lines: Vec<MergedLine> = Vec::new();
        let mut new_last: Vec<u64> = Vec::new();
        let mut sid: usize = 0;
        while sid < sources.len()
            invariant
                0 <= sid <= sources@.len(),
                prev_totals@.len() == sources@.len(),
                last_ts@.len() == sources@.len(),
                new_lines@ == grown_lines(sources@, prev_totals@, last_ts@, sid as int),
                new_last@.len() == sid,
                forall|i: int|
                    0 <= i < sid ==> #[trigger] new_last@[i] == run_end_ts(
                        sources@[i].index_reader,
                        prev_totals@[i] as int,
                        sources@[i].total_lines as int,
                        last_ts@[i],
                    ),
            decreases sources@.len() - sid,
        {
            let prev = prev_totals[sid];
            let source = &sources[sid];
            let carried = last_ts[sid];
            if source.total_lines > prev {
                // Carry forward the timestamp the merge gave this source's
                // last line, so new lines without index data sort near their
                // true position.
                let end = Self::push_run(&mut new_lines, sid, source, prev, source.total_lines, carried);
                new_last.push(end);
            } else {
                proof {
                    assert(new_lines@ + Seq::<MergedLine>::empty() == new_lines@);
                }
                new_last.push(carried);
            }
            sid = sid + 1;
        }
        let ghost old_m = merged@;
        let ghost grown = new_lines@;
        proof {
            lemma_grown_lines_sources(sources@, prev_totals@, last_ts@, sources@.len() as int);
            (old_m + grown).lemma_sort_by_ensures(merged_order());
            vstd::seq_lib::lemma_multiset_commutative(old_m, grown);
        }
        if new_lines.len() == 0 {
            proof {
                assert(old_m + grown == old_m);
                vstd::seq_lib::lemma_sorted_unique(old_m, (old_m + grown).sort_by(merged_order()), merged_order());
            }
            return (merged, new_last);
        }
        let new_sorted = merge_sort(new_lines);
        proof {
            assert(new_sorted@.to_multiset().len() == grown.to_multiset().len());
            assert(new_sorted@.len() > 0);
        }
        let mut merged = merged;
        let can_append = merged.len() == 0 || merged_le(&merged[merged.len() - 1], &new_sorted[0]);
        let result: Vec<MergedLine> = if can_append {
            let mut i: usize = 0;
            while i < new_sorted.len()
                invariant
                    0 <= i <= new_sorted@.len(),
                    merged@ == old_m + new_sorted@.take(i as int),
                decreases new_sorted@.len() - i,
            {
                proof {
                    assert(new_sorted@.take(i + 1) == new_sorted@.take(i as int).push(new_sorted@[i as int]));
                }
                merged.push(new_sorted[i]);
                i = i + 1;
            }
            proof {
                assert(new_sorted@.take(new_sorted@.len() as int) == new_sorted@);
                vstd::seq_lib::lemma_multiset_commutative(old_m, new_sorted@);
                assert forall|p: int, q: int| 0 <= p < q < merged@.len() implies merged_order()(merged@[p], merged@[q]) by {
                    let n0 = old_m.len() as int;
                    if q < n0 {
                        assert(merged_order()(old_m[p], old_m[q]));
                    } else if p >= n0 {
                        assert(merged_order()(new_sorted@[p - n0], new_sorted@[q - n0]));
                    } else {
                        if p < n0 - 1 {
                            assert(merged_order()(old_m[p], old_m[n0 - 1]));
                        }
                        if q > n0 {
                            assert(merged_order()(new_sorted@[0], new_sorted@[q - n0]));
                        }
                    }
                }
            }
            merged
        } else if new_sorted.len() <= 64 {
            // Small K: binary-search insert each new line in place, in reverse.
            let mut k: usize = new_sorted.len();
            proof {
                assert(new_sorted@.skip(k as int) == Seq::<MergedLine>::empty());
                assert(old_m.to_multiset().add(Multiset::empty()) == old_m.to_multiset());
            }
            while k > 0
                invariant
                    0 <= k <= new_sorted@.len(),
                    total_ordering(merged_order()),
                    sorted_by(merged@, merged_order()),
                    merged@.to_multiset() == old_m.to_multiset().add(new_sorted@.skip(k as int).to_multiset()),
                decreases k,
            {
                k = k - 1;
                let x = new_sorted[k];
                let pos = partition_point(&merged, &x);
                proof {
                    lemma_insert_sorted(merged@, pos as int, x);
                    assert(new_sorted@.skip(k as int) == seq![x] + new_sorted@.skip(k + 1));
                    vstd::seq_lib::lemma_multiset_commutative(seq![x], new_sorted@.skip(k + 1));
                    assert(seq![x].to_multiset() == Multiset::<MergedLine>::empty().insert(x)) by {
                        assert(seq![x] == Seq::<MergedLine>::empty().push(x));
                    }
                }
                merged.insert(pos, x);
            }
            proof {
                assert(new_sorted@.skip(0) == new_sorted@);
            }
            merged
        } else {
            merge_sorted(&merged, &new_sorted)
        };
        proof {
            assert(result@.to_multiset() == (old_m + grown).to_multiset());
            vstd::seq_lib::lemma_sorted_unique(result@, (old_m + grown).sort_by(merged_order()), merged_order());
            assert forall|i: int| 0 <= i < result@.len() implies #[trigger] result@[i].source_id < sources@.len() by {
                let x = result@[i];
                assert(result@.to_multiset().count(x) > 0);
                assert((old_m + grown).contains(x));
                let j = choose|j: int| 0 <= j < (old_m + grown).len() && (old_m + grown)[j] == x;
                if j < old_m.len() {
                    assert(old_m[j] == x);
                } else {
                    assert(grown[j - old_m.len()] == x);
                }
            }
        }
        (result, new_last)
    }

    /// Line `k` of the combined view is the line of the source that its
    /// merged entry names.
    pub proof fn lemma_content(&self)
        ensures
            self.content().len() == self.spec_merged().len(),
            forall|k: int|
                0 <= k < self.spec_merged().len() ==> #[trigger] self.content()[k] == self.spec_sources()[self.spec_merged()[k].source_id as int].reader.content()[self.spec_merged()[k].file_line as int],
    {
    }

    /// Get source info for a virtual line index (for rendering source prefix):
    /// the source's name and its color from `source_colors`.
    pub fn source_info<C: Copy>(&self, virtual_idx: usize, source_colors: &[C]) -> (r: Option<(&str, C)>)
        requires
            virtual_idx < self.spec_merged().len() ==> source_colors@.len() > 0,
        ensures
            virtual_idx >= self.spec_merged().len() ==> r is None,
            virtual_idx < self.spec_merged().len() ==> (r matches Some((name, color)) && {
                let m = self.spec_merged()[virtual_idx as int];
                &&& name@ == self.spec_sources()[m.source_id as int].name@
                &&& color == source_colors@[(m.source_id as int) % (source_colors@.len() as int)]
            }),
    {
        proof {
            use_type_invariant(self);
        }
        if virtual_idx >= self.merged.len() {
            return None;
        }
        let m = self.merged[virtual_idx];
        let name = self.sources[m.source_id].name.as_str();
        let color = source_colors[m.source_id % source_colors.len()];
        Some((name, color))
    }

    /// Get the renderer_names for the source that owns a given virtual line.
    pub fn renderer_names(&self, virtual_idx: usize) -> (r: &[String])
        ensures
            virtual_idx >= self.spec_merged().len() ==> r@.len() == 0,
            virtual_idx < self.spec_merged().len() ==> r@ == self.spec_sources()[self.spec_merged()[virtual_idx as int].source_id as int].renderer_names@,
    {
        proof {
            use_type_invariant(self);
        }
        if virtual_idx >= self.merged.len() {
            return &[];
        }
        let m = self.merged[virtual_idx];
        self.sources[m.source_id].renderer_names.as_slice()
    }

    /// Get the arrival timestamp (epoch ms) for a virtual line.
    pub fn timestamp(&self, virtual_idx: usize) -> (r: Option<u64>)
        ensures
            r == if virtual_idx < self.spec_merged().len() && self.spec_merged()[virtual_idx as int].timestamp > 0 {
                Some(self.spec_merged()[virtual_idx as int].timestamp)
            } else {
                None::<u64>
            },
    {
        if virtual_idx >= self.merged.len() {
            return None;
        }
        let m = self.merged[virtual_idx];
        if m.timestamp > 0 {
            Some(m.timestamp)
        } else {
            None
        }
    }

    /// Get severity for a virtual line from the originating source's IndexReader.
    pub fn severity(&self, virtual_idx: usize) -> (r: Severity)
        ensures
            virtual_idx >= self.spec_merged().len() ==> r == Severity::Unknown,
            virtual_idx < self.spec_merged().len() ==> {
                let m = self.spec_merged()[virtual_idx as int];
                r == match self.spec_sources()[m.source_id as int].index_reader {
                    Some(ir) => if m.file_line < ir.spec_severities().len() {
                        ir.spec_severities()[m.file_line as int]
                    } else {
                        Severity::Unknown
                    },
                    None => Severity::Unknown,
                }
            },
    {
        proof {
            use_type_invariant(self);
        }
        if virtual_idx >= self.merged.len() {
            return Severity::Unknown;
        }
        let m = self.merged[virtual_idx];
        match &self.sources[m.source_id].index_reader {
            Some(ir) => ir.severity(m.file_line),
            None => Severity::Unknown,
        }
    }
}

impl<R: LogReader> LogReader for CombinedReader<R> {
    closed spec fn content(&self) -> Seq<Seq<char>> {
        self.merged@.map_values(
            |m: MergedLine| self.sources@[m.source_id as int].reader.content()[m.file_line as int],
        )
    }

    /// Every source gives every line, and every merged line lies within
    /// what its source holds.
    closed spec fn serves_every_line(&self) -> bool {
        &&& forall|i: int| 0 <= i < self.sources@.len() ==> (#[trigger] self.sources@[i]).reader.serves_every_line()
        &&& forall|k: int|
            0 <= k < self.merged@.len() ==> (#[trigger] self.merged@[k]).file_line < self.sources@[self.merged@[k].source_id as int].reader.content().len()
    }

    fn total_lines(&self) -> (r: usize) {
        self.merged.len()
    }

    fn get_line(&mut self, index: usize) -> (r: Result<Option<String>, ReaderError>)
        ensures
            final(self).spec_merged() == old(self).spec_merged(),
            final(self).spec_merged() == all_lines(
                final(self).spec_sources(),
                final(self).spec_sources().len() as int,
            ).sort_by(merged_order()),
    {
        proof {
            use_type_invariant(&*self);
        }
        if index >= self.merged.len() {
            return Ok(None);
        }
        let m = self.merged[index];
        let empty_sources: Vec<SourceEntry<R>> = Vec::new();
        proof {
            lemma_empty_build(empty_sources@);
        }
        let mut me = CombinedReader { sources: empty_sources, merged: Vec::new(), prev_totals: Vec::new(), last_ts: Vec::new() };
        std::mem::swap(&mut me, self);
        let CombinedReader { mut sources, merged, prev_totals, last_ts } = me;
        let ghost before = sources@;
        let r = sources[m.source_id].reader.get_line(m.file_line);
        proof {
            assert forall|i: int| 0 <= i < before.len() implies #[trigger] sources@[i].reader.content() == before[i].reader.content()
                && sources@[i].reader.serves_every_line() == before[i].reader.serves_every_line() by {}
        }
        proof {
            assert forall|i: int| 0 <= i < before.len() implies (#[trigger] sources@[i]).total_lines
                == before[i].total_lines && sources@[i].index_reader == before[i].index_reader by {}
            lemma_all_lines_same_shape(sources@, before, before.len() as int);
        }
        *self = CombinedReader { sources, merged, prev_totals, last_ts };
        proof {
            assert(self.content() =~= old(self).content());
            assert(self.sources@.len() == old(self).sources@.len());
            assert(self.merged@ == old(self).merged@);
            assert(before == old(self).sources@);
            assert forall|i: int|
                #![trigger self.sources@[i]]
                #![trigger old(self).sources@[i]]
                0 <= i < self.sources@.len() implies self.sources@[i].reader.serves_every_line()
                == old(self).sources@[i].reader.serves_every_line() by {
                assert(sources@[i] == self.sources@[i]);
            }
            assert forall|k: int|
                #![trigger self.merged@[k]]
                #![trigger old(self).merged@[k]]
                0 <= k < self.merged@.len() implies self.sources@[self.merged@[k].source_id as int].reader.content()
                    == old(self).sources@[old(self).merged@[k].source_id as int].reader.content() by {
                assert(self.merged@[k].source_id < before.len());
            }
            assert((forall|i: int| 0 <= i < self.sources@.len() ==> (#[trigger] self.sources@[i]).reader.serves_every_line())
                == (forall|i: int| 0 <= i < old(self).sources@.len() ==> (#[trigger] old(self).sources@[i]).reader.serves_every_line()));
            assert((forall|k: int| 0 <= k < self.merged@.len() ==> (#[trigger] self.merged@[k]).file_line
                < self.sources@[self.merged@[k].source_id as int].reader.content().len())
                == (forall|k: int| 0 <= k < old(self).merged@.len() ==> (#[trigger] old(self).merged@[k]).file_line
                < old(self).sources@[old(self).merged@[k].source_id as int].reader.content().len()));
            assert(self.serves_every_line() == old(self).serves_every_line());
            if old(self).serves_every_line() {
                assert(before[m.source_id as int].reader.serves_every_line());
                assert(old(self).merged@[index as int] == m);
            }
        }
        r
    }

    /// Reload every source, then bring the merge up to date: rebuilt when a
    /// source shrank, else with the new lines merged in. A source whose
    /// reload fails keeps its lines and counts as unchanged.
    fn reload(&mut self) -> (r: Result<(), ReaderError>)
        ensures
            r is Ok,
            final(self).spec_sources().len() == old(self).spec_sources().len(),
            forall|i: int|
                0 <= i < old(self).spec_sources().len() ==> {
                    &&& (#[trigger] final(self).spec_sources()[i]).name == old(self).spec_sources()[i].name
                    &&& final(self).spec_sources()[i].index_reader == old(self).spec_sources()[i].index_reader
                    &&& final(self).spec_sources()[i].renderer_names == old(self).spec_sources()[i].renderer_names
                    &&& final(self).spec_prev_totals()[i] == old(self).spec_sources()[i].total_lines
                },
            final(self).spec_prev_totals().len() == old(self).spec_sources().len(),
            final(self).spec_merged() == all_lines(
                final(self).spec_sources(),
                final(self).spec_sources().len() as int,
            ).sort_by(merged_order()),
            (forall|i: int|
                0 <= i < final(self).spec_sources().len() ==> #[trigger] final(self).spec_prev_totals()[i]
                    <= final(self).spec_sources()[i].total_lines) ==> final(self).spec_merged() == (old(
                self,
            ).spec_merged() + grown_lines(
                final(self).spec_sources(),
                final(self).spec_prev_totals(),
                old(self).spec_last_ts(),
                final(self).spec_sources().len() as int,
            )).sort_by(merged_order()),
    {
        proof {
            use_type_invariant(&*self);
        }
        let empty_sources: Vec<SourceEntry<R>> = Vec::new();
        proof {
            lemma_empty_build(empty_sources@);
        }
        let mut me = CombinedReader { sources: empty_sources, merged: Vec::new(), prev_totals: Vec::new(), last_ts: Vec::new() };
        std::mem::swap(&mut me, self);
        let CombinedReader { mut sources, merged, mut prev_totals, last_ts } = me;
        let ghost old_sources = sources@;
        let n = sources.len();
        let mut any_truncated = false;
        let mut i: usize = 0;
        while i < n
            invariant
                0 <= i <= n,
                sources@.len() == n,
                old_sources.len() == n,
                prev_totals@.len() == n,
                forall|j: int|
                    0 <= j < n ==> {
                        &&& (#[trigger] sources@[j]).name == old_sources[j].name
                        &&& sources@[j].index_reader == old_sources[j].index_reader
                        &&& sources@[j].renderer_names == old_sources[j].renderer_names
                    },
                forall|j: int| i <= j < n ==> (#[trigger] sources@[j]).total_lines == old_sources[j].total_lines,
                forall|j: int| 0 <= j < i ==> #[trigger] prev_totals@[j] == old_sources[j].total_lines,
                !any_truncated <==> forall|j: int| 0 <= j < i ==> #[trigger] prev_totals@[j] <= sources@[j].total_lines,
            decreases n - i,
        {
            let ghost s0 = sources@;
            let ghost p0 = prev_totals@;
            let ghost was = any_truncated;
            let prev = sources[i].total_lines;
            match sources[i].reader.reload() {
                Err(_) => {},
                Ok(()) => {
                    let t = sources[i].reader.total_lines();
                    sources[i].total_lines = t;
                },
            }
            prev_totals.set(i, prev);
            if sources[i].total_lines < prev {
                any_truncated = true;
            }
            proof {
                assert forall|j: int| 0 <= j < i implies sources@[j] == s0[j] && prev_totals@[j] == p0[j] by {}
                if was {
                    assert(!(forall|j: int| 0 <= j < i ==> #[trigger] p0[j] <= s0[j].total_lines));
                    let w = choose|j: int| !(0 <= j < i ==> #[trigger] p0[j] <= s0[j].total_lines);
                    assert(!(prev_totals@[w] <= sources@[w].total_lines));
                } else if any_truncated {
                    assert(!(prev_totals@[i as int] <= sources@[i as int].total_lines));
                } else {
                    assert forall|j: int| 0 <= j < i + 1 implies #[trigger] prev_totals@[j] <= sources@[j].total_lines by {
                        if j < i {
                            assert(p0[j] <= s0[j].total_lines);
                        }
                    }
                }
            }
            i = i + 1;
        }
        if any_truncated {
            let (rebuilt, lasts) = Self::build_merged(&sources);
            *self = CombinedReader { sources, merged: rebuilt, prev_totals, last_ts: lasts };

        } else {
            proof {
                lemma_merged_order_total();
                lemma_prefix_is_earlier_build(old_sources, sources@, prev_totals@, n as int);
                assert forall|j: int| 0 <= j < n implies #[trigger] last_ts@[j] == run_end_ts(
                    sources@[j].index_reader,
                    0,
                    prev_totals@[j] as int,
                    0,
                ) by {
                    assert(last_ts@[j] == run_end_ts(old_sources[j].index_reader, 0, old_sources[j].total_lines as int, 0));
                }
                lemma_append_matches_rebuild(sources@, prev_totals@, last_ts@);
            }
            let (appended, lasts) = Self::append_new_lines(&sources, &prev_totals, &last_ts, merged);
            proof {
                assert forall|j: int| 0 <= j < n implies #[trigger] lasts@[j] == run_end_ts(
                    sources@[j].index_reader,
                    0,
                    sources@[j].total_lines as int,
                    0,
                ) by {
                    lemma_resumed_run_matches_full(
                        j as usize,
                        sources@[j].index_reader,
                        prev_totals@[j] as int,
                        sources@[j].total_lines as int,
                    );
                }
            }
            *self = CombinedReader { sources, merged: appended, prev_totals, last_ts: lasts };
        }
        Ok(())
    }
}

} // verus!
