//! Viewport manages the relationship between selection and scroll position.
//!
//! Uses vim-like scrolling: selection moves freely within the visible area,
//! and the viewport only scrolls when selection hits the edge padding.
//! The anchor_line (file line number) is stable across filter changes.
use vstd::prelude::*;

verus! {

/// `s` holds strictly increasing line numbers (the shape of every list of
/// visible line indices).
pub open spec fn strictly_sorted(s: Seq<usize>) -> bool {
    forall|i: int, j: int| 0 <= i < j < s.len() ==> s[i] < s[j]
}

/// Number of leading elements of a sorted sequence that are below `x`
/// (the position where `x` is found or would be inserted).
pub open spec fn lower_bound(s: Seq<usize>, x: usize) -> int
    decreases s.len(),
{
    if s.len() == 0 {
        0
    } else if s.last() < x {
        s.len() as int
    } else {
        lower_bound(s.drop_last(), x)
    }
}

pub open spec fn sat_sub(a: int, b: int) -> int {
    if a > b {
        a - b
    } else {
        0
    }
}

pub open spec fn min_int(a: int, b: int) -> int {
    if a <= b {
        a
    } else {
        b
    }
}

pub open spec fn max_int(a: int, b: int) -> int {
    if a >= b {
        a
    } else {
        b
    }
}

/// Index of `line` in `s`, or the insertion point clamped to the last index.
pub open spec fn index_of(s: Seq<usize>, line: usize) -> int {
    min_int(lower_bound(s, line), sat_sub(s.len() as int, 1))
}

/// Index that `resolve` selects: the line itself when present, otherwise the
/// nearest line (the earlier one on a tie).
pub open spec fn nearest_index(s: Seq<usize>, line: usize) -> int {
    let k = lower_bound(s, line);
    if k < s.len() && s[k] == line {
        k
    } else if k >= s.len() {
        s.len() - 1
    } else if k == 0 {
        0
    } else if line - s[k - 1] <= s[k] - line {
        k - 1
    } else {
        k
    }
}

/// Padding kept between the selection and the viewport edges.
pub open spec fn edge_pad(height: int, edge_padding: int) -> int {
    min_int(edge_padding, height / 4)
}

/// Scroll position after making `sel` visible inside the comfort zone.
pub open spec fn scroll_to_show(scroll: int, sel: int, total: int, height: int, edge_padding: int) -> int {
    if height == 0 {
        scroll
    } else {
        let p = edge_pad(height, edge_padding);
        let max_scroll = sat_sub(total, height);
        let s1 = if sel < scroll + p {
            sat_sub(sel, p)
        } else if sel + p >= scroll + height {
            sat_sub(sel + p + 1, height)
        } else {
            scroll
        };
        min_int(s1, max_scroll)
    }
}

/// Position reached by moving `delta` rows from the anchor's position,
/// clamped to the content.
pub open spec fn stepped_index(s: Seq<usize>, anchor: usize, delta: int) -> int {
    let cur = index_of(s, anchor);
    if delta >= 0 {
        min_int(cur + delta, s.len() - 1)
    } else {
        sat_sub(cur, -delta)
    }
}

/// The viewport that `move_selection(delta)` leaves on sorted content.
pub open spec fn after_move_selection(v: Viewport, delta: int, s: Seq<usize>) -> Viewport {
    if s.len() == 0 {
        v
    } else {
        let i = stepped_index(s, v.anchor_line, delta);
        Viewport {
            anchor_line: s[i],
            scroll_position: scroll_to_show(
                v.scroll_position as int,
                i,
                s.len() as int,
                v.height as int,
                v.edge_padding as int,
            ) as usize,
            cache: None,
            ..v
        }
    }
}

/// The viewport that `scroll_with_selection(delta)` leaves on sorted content.
pub open spec fn after_scroll_with_selection(v: Viewport, delta: int, s: Seq<usize>) -> Viewport {
    if s.len() == 0 {
        v
    } else {
        let max_scroll = sat_sub(s.len() as int, max_int(v.height as int, 1));
        Viewport {
            anchor_line: s[stepped_index(s, v.anchor_line, delta)],
            scroll_position: (if delta >= 0 {
                min_int(v.scroll_position + delta, max_scroll)
            } else {
                sat_sub(v.scroll_position as int, -delta)
            }) as usize,
            cache: None,
            ..v
        }
    }
}

/// The viewport that `move_viewport(delta)` leaves on sorted content.
pub open spec fn after_move_viewport(v: Viewport, delta: int, s: Seq<usize>) -> Viewport {
    if s.len() == 0 || v.height == 0 {
        v
    } else {
        let len = s.len() as int;
        let max_scroll = sat_sub(len, v.height as int);
        let new_scroll = if delta > 0 {
            min_int(v.scroll_position + delta, max_scroll)
        } else {
            sat_sub(v.scroll_position as int, -delta)
        };
        let cur = index_of(s, v.anchor_line);
        let bottom = new_scroll + v.height - 1;
        Viewport {
            anchor_line: if delta > 0 && cur < new_scroll {
                s[new_scroll]
            } else if delta <= 0 && cur > bottom {
                s[min_int(bottom, len - 1)]
            } else {
                v.anchor_line
            },
            scroll_position: new_scroll as usize,
            cache: None,
            ..v
        }
    }
}

/// The viewport that `center` leaves on sorted content.
pub open spec fn after_center(v: Viewport, s: Seq<usize>) -> Viewport {
    if s.len() == 0 || v.height == 0 {
        v
    } else {
        Viewport {
            scroll_position: min_int(
                sat_sub(index_of(s, v.anchor_line), v.height as int / 2),
                sat_sub(s.len() as int, v.height as int),
            ) as usize,
            cache: None,
            ..v
        }
    }
}

/// The viewport that `jump_to_line_at_offset(line, offset)` leaves on sorted
/// content.
pub open spec fn after_jump_at_offset(v: Viewport, line: usize, offset: int, s: Seq<usize>) -> Viewport {
    if s.len() == 0 {
        v
    } else {
        Viewport {
            anchor_line: line,
            scroll_position: min_int(
                sat_sub(index_of(s, line), offset),
                sat_sub(s.len() as int, max_int(v.height as int, 1)),
            ) as usize,
            cache: None,
            ..v
        }
    }
}

/// The viewport that `preserve_screen_offset` leaves on sorted content.
pub open spec fn after_preserve_offset(v: Viewport, s: Seq<usize>) -> Viewport {
    if s.len() == 0 {
        v
    } else {
        let new_idx = index_of(s, v.anchor_line);
        let offset = match v.cache {
            Some(c) => sat_sub(c.selected_index as int, c.scroll_position as int),
            None => sat_sub(new_idx, v.scroll_position as int),
        };
        Viewport {
            scroll_position: min_int(
                sat_sub(new_idx, offset),
                sat_sub(s.len() as int, max_int(v.height as int, 1)),
            ) as usize,
            cache: None,
            ..v
        }
    }
}

/// For sorted input, `lower_bound` is the unique split point between the
/// elements below `x` and the others.
pub proof fn lemma_lower_bound_split(s: Seq<usize>, x: usize, k: int)
    requires
        strictly_sorted(s),
        0 <= k <= s.len(),
        forall|i: int| 0 <= i < k ==> s[i] < x,
        forall|i: int| k <= i < s.len() ==> s[i] >= x,
    ensures
        lower_bound(s, x) == k,
    decreases s.len(),
{
    if s.len() > 0 {
        if k == s.len() {
        } else {
            lemma_lower_bound_split(s.drop_last(), x, k);
        }
    }
}

/// Properties of `lower_bound` that hold for every sequence.
pub proof fn lemma_lower_bound_range(s: Seq<usize>, x: usize)
    ensures
        0 <= lower_bound(s, x) <= s.len(),
    decreases s.len(),
{
    if s.len() > 0 {
        lemma_lower_bound_range(s.drop_last(), x);
    }
}

/// For sorted input, every element before `lower_bound` is below `x` and
/// every element from it on is not.
pub proof fn lemma_lower_bound_props(s: Seq<usize>, x: usize)
    requires
        strictly_sorted(s),
    ensures
        0 <= lower_bound(s, x) <= s.len(),
        forall|i: int| 0 <= i < lower_bound(s, x) ==> s[i] < x,
        forall|i: int| lower_bound(s, x) <= i < s.len() ==> s[i] >= x,
    decreases s.len(),
{
    if s.len() > 0 {
        if s.last() < x {
            assert forall|i: int| 0 <= i < s.len() implies s[i] < x by {
                if i < s.len() - 1 {
                    assert(s[i] < s[s.len() - 1]);
                }
            }
        } else {
            let t = s.drop_last();
            assert(strictly_sorted(t));
            lemma_lower_bound_props(t, x);
            assert forall|i: int| lower_bound(s, x) <= i < s.len() implies s[i] >= x by {
                if i < s.len() - 1 {
                    assert(s[i] == t[i]);
                }
            }
            assert forall|i: int| 0 <= i < lower_bound(s, x) implies s[i] < x by {
                assert(s[i] == t[i]);
            }
        }
    }
}

/// After `resolve` (or any other step that calls `scroll_to_show`), the
/// selected row lies inside the viewport and the scroll position never
/// passes the last full page.
pub proof fn lemma_selection_visible(scroll: int, sel: int, total: int, height: int, edge_padding: int)
    requires
        scroll >= 0,
        edge_padding >= 0,
        height > 0,
        0 <= sel < total,
    ensures
        ({
            let r = scroll_to_show(scroll, sel, total, height, edge_padding);
            &&& 0 <= r <= sel < r + height
            &&& r <= sat_sub(total, height)
        }),
{
    let p = edge_pad(height, edge_padding);
    assert(p <= height / 4);
    assert(p + 1 <= height);
}

/// A selection that stays inside the comfort zone never scrolls the view.
pub proof fn lemma_no_scroll_inside_comfort_zone(
    scroll: int,
    sel: int,
    total: int,
    height: int,
    edge_padding: int,
)
    requires
        height > 0,
        scroll <= sat_sub(total, height),
        scroll + edge_pad(height, edge_padding) <= sel,
        sel + edge_pad(height, edge_padding) < scroll + height,
    ensures
        scroll_to_show(scroll, sel, total, height, edge_padding) == scroll,
{
}

/// The anchor line is stable: when the anchor is among the visible lines,
/// `resolve` selects exactly its position.
pub proof fn lemma_anchor_found(s: Seq<usize>, i: int)
    requires
        strictly_sorted(s),
        0 <= i < s.len(),
    ensures
        nearest_index(s, s[i]) == i,
        index_of(s, s[i]) == i,
{
    lemma_lower_bound_split(s, s[i], i);
}

/// When the anchor line is not visible, `resolve` picks a visible line at
/// the smallest distance from it.
pub proof fn lemma_nearest_is_closest(s: Seq<usize>, line: usize, j: int)
    requires
        strictly_sorted(s),
        s.len() > 0,
        0 <= j < s.len(),
    ensures
        0 <= nearest_index(s, line) < s.len(),
        ({
            let n = nearest_index(s, line);
            let dn = if s[n] >= line { s[n] - line } else { line - s[n] };
            let dj = if s[j] >= line { s[j] - line } else { line - s[j] };
            dn <= dj
        }),
{
    lemma_lower_bound_props(s, line);
}

/// Binary search for the first position whose element is not below `x`.
pub fn lower_bound_exec(s: &[usize], x: usize) -> (r: usize)
    ensures
        r <= s@.len(),
        r > 0 ==> s@[r - 1] < x,
        r < s@.len() ==> s@[r as int] >= x,
        strictly_sorted(s@) ==> r == lower_bound(s@, x),
{
    let mut lo: usize = 0;
    let mut hi: usize = s.len();
    while lo < hi
        invariant
            0 <= lo <= hi <= s@.len(),
            lo > 0 ==> s@[lo - 1] < x,
            hi < s@.len() ==> s@[hi as int] >= x,
            strictly_sorted(s@) ==> forall|i: int| 0 <= i < lo ==> s@[i] < x,
            strictly_sorted(s@) ==> forall|i: int| hi <= i < s@.len() ==> s@[i] >= x,
        decreases hi - lo,
    {
        let mid = lo + (hi - lo) / 2;
        if s[mid] < x {
            lo = mid + 1;
        } else {
            hi = mid;
        }
    }
    proof {
        if strictly_sorted(s@) {
            lemma_lower_bound_split(s@, x, lo as int);
        }
    }
    lo
}

/// Result of resolving the viewport against current content
#[derive(Debug, Clone, Copy, PartialEq, Eq, Structural)]
pub struct ResolvedView {
    /// Index into line_indices for the selected line
    pub selected_index: usize,
    /// First visible line index (for rendering)
    pub scroll_position: usize,
}

/// Viewport manages selection and scrolling with vim-like behavior
#[derive(Debug, Clone)]
pub struct Viewport {
    /// The file line number that is selected (stable across filter changes)
    pub anchor_line: usize,
    /// Current scroll position (index into line_indices)
    pub scroll_position: usize,
    /// Viewport height in lines
    pub height: usize,
    /// Padding to keep at edges (vim's scrolloff)
    pub edge_padding: usize,
    /// Cached resolved values (valid after resolve() call)
    pub cache: Option<ResolvedView>,
}

/// `a + b` clamped to `cap`, computed without overflow.
fn add_capped(a: usize, b: usize, cap: usize) -> (r: usize)
    ensures
        r == min_int(a + b, cap as int),
{
    if a >= cap || b >= cap - a {
        cap
    } else {
        a + b
    }
}

/// `a.saturating_sub(b)`
fn sub_sat(a: usize, b: usize) -> (r: usize)
    ensures
        r == sat_sub(a as int, b as int),
{
    if a > b {
        a - b
    } else {
        0
    }
}

/// Magnitude of a negative step.
fn neg_magnitude(delta: i32) -> (r: usize)
    requires
        delta < 0,
    ensures
        r == -delta,
{
    if delta == i32::MIN {
        2147483648usize
    } else {
        (-delta) as usize
    }
}

impl Viewport {
    /// Create a new viewport anchored to the given line
    pub fn new(initial_line: usize) -> (v: Self)
        ensures
            v.anchor_line == initial_line,
            v.scroll_position == 0,
            v.height == 0,
            v.edge_padding == 3,
            v.cache is None,
    {
        Viewport { anchor_line: initial_line, scroll_position: 0, height: 0, edge_padding: 3, cache: None }
    }

    /// Find current anchor_line index in line_indices
    fn find_index(&self, line_indices: &[usize]) -> (r: usize)
        ensures
            line_indices@.len() > 0 ==> r < line_indices@.len(),
            line_indices@.len() == 0 ==> r == 0,
            strictly_sorted(line_indices@) ==> r == index_of(line_indices@, self.anchor_line),
    {
        let k = lower_bound_exec(line_indices, self.anchor_line);
        let last = sub_sat(line_indices.len(), 1);
        if k <= last {
            k
        } else {
            last
        }
    }

    /// Ensure selection index is visible within the comfort zone
    /// Only scrolls if selection is outside the padding boundaries
    fn ensure_visible(&mut self, selected_index: usize, total_lines: usize)
        ensures
            final(self).anchor_line == old(self).anchor_line,
            final(self).height == old(self).height,
            final(self).edge_padding == old(self).edge_padding,
            final(self).cache == old(self).cache,
            final(self).scroll_position == scroll_to_show(
                old(self).scroll_position as int,
                selected_index as int,
                total_lines as int,
                old(self).height as int,
                old(self).edge_padding as int,
            ),
    {
        if self.height == 0 {
            return;
        }
        let padding: usize = if self.edge_padding <= self.height / 4 {
            self.edge_padding
        } else {
            self.height / 4
        };
        let max_scroll = sub_sat(total_lines, self.height);
        let scroll = self.scroll_position;
        let sel = selected_index;
        // `sel < scroll + padding`, computed without overflow
        let above = scroll > sel || sel - scroll < padding;
        let s1: usize = if above {
            sub_sat(sel, padding)
        } else {
            // here scroll <= sel, so `sel + padding >= scroll + height`
            // is `sel - scroll + padding >= height`
            if (sel - scroll) as u128 + padding as u128 >= self.height as u128 {
                let t: u128 = sel as u128 + padding as u128 + 1;
                if t > self.height as u128 {
                    (t - self.height as u128) as usize
                } else {
                    0
                }
            } else {
                scroll
            }
        };
        self.scroll_position = if s1 <= max_scroll {
            s1
        } else {
            max_scroll
        };
    }

    /// Resolve the viewport against current content
    ///
    /// Finds where the anchor line is in the current view and ensures
    /// scroll position keeps selection within the comfort zone.
    pub fn resolve(&mut self, line_indices: &[usize], height: usize) -> (view: ResolvedView)
        ensures
            final(self).height == height,
            final(self).edge_padding == old(self).edge_padding,
            final(self).cache == Some(view),
            line_indices@.len() == 0 ==> {
                &&& view.selected_index == 0
                &&& view.scroll_position == 0
                &&& final(self).anchor_line == old(self).anchor_line
                &&& final(self).scroll_position == old(self).scroll_position
            },
            line_indices@.len() > 0 ==> {
                &&& view.selected_index < line_indices@.len()
                &&& view.scroll_position == final(self).scroll_position
                &&& final(self).anchor_line == line_indices@[view.selected_index as int]
                &&& final(self).scroll_position == scroll_to_show(
                    old(self).scroll_position as int,
                    view.selected_index as int,
                    line_indices@.len() as int,
                    height as int,
                    old(self).edge_padding as int,
                )
            },
            line_indices@.len() > 0 && strictly_sorted(line_indices@) ==> view.selected_index
                == nearest_index(line_indices@, old(self).anchor_line),
    {
        self.height = height;
        if line_indices.len() == 0 {
            let view = ResolvedView { selected_index: 0, scroll_position: 0 };
            self.cache = Some(view);
            return view;
        }
        let len = line_indices.len();
        let anchor = self.anchor_line;
        let k = lower_bound_exec(line_indices, anchor);
        let selected_index: usize = if k < len && line_indices[k] == anchor {
            k
        } else {
            let idx: usize = if k >= len {
                len - 1
            } else if k == 0 {
                0
            } else {
                let before = line_indices[k - 1];
                let after = line_indices[k];
                if anchor - before <= after - anchor {
                    k - 1
                } else {
                    k
                }
            };
            self.anchor_line = line_indices[idx];
            idx
        };
        self.ensure_visible(selected_index, len);
        let view = ResolvedView { selected_index, scroll_position: self.scroll_position };
        self.cache = Some(view);
        view
    }

    /// Move selection by delta lines (positive = down, negative = up)
    /// Selection moves freely; viewport only scrolls at edges
    pub fn move_selection(&mut self, delta: i32, line_indices: &[usize])
        ensures
            final(self).height == old(self).height,
            final(self).edge_padding == old(self).edge_padding,
            line_indices@.len() == 0 ==> *final(self) == *old(self),
            line_indices@.len() > 0 ==> {
                &&& final(self).cache is None
                &&& exists|i: int|
                    0 <= i < line_indices@.len() && final(self).anchor_line == line_indices@[i]
                        && final(self).scroll_position == scroll_to_show(
                        old(self).scroll_position as int,
                        i,
                        line_indices@.len() as int,
                        old(self).height as int,
                        old(self).edge_padding as int,
                    )
            },
            line_indices@.len() > 0 && strictly_sorted(line_indices@) ==> {
                let cur = index_of(line_indices@, old(self).anchor_line);
                let new_idx = if delta >= 0 {
                    min_int(cur + delta, line_indices@.len() - 1)
                } else {
                    sat_sub(cur, -delta)
                };
                &&& final(self).anchor_line == line_indices@[new_idx]
                &&& final(self).scroll_position == scroll_to_show(
                    old(self).scroll_position as int,
                    new_idx,
                    line_indices@.len() as int,
                    old(self).height as int,
                    old(self).edge_padding as int,
                )
            },
            strictly_sorted(line_indices@) ==> *final(self) == after_move_selection(
                *old(self),
                delta as int,
                line_indices@,
            ),
    {
        if line_indices.len() == 0 {
            return;
        }
        let current_idx = self.find_index(line_indices);
        let last = line_indices.len() - 1;
        let new_idx = if delta >= 0 {
            add_capped(current_idx, delta as usize, last)
        } else {
            sub_sat(current_idx, neg_magnitude(delta))
        };
        self.anchor_line = line_indices[new_idx];
        self.ensure_visible(new_idx, line_indices.len());
        self.cache = None;
    }

    /// Move viewport by delta lines without moving selection
    /// (selection stays on same line, but moves on screen)
    pub fn move_viewport(&mut self, delta: i32, line_indices: &[usize])
        ensures
            final(self).height == old(self).height,
            final(self).edge_padding == old(self).edge_padding,
            line_indices@.len() == 0 || old(self).height == 0 ==> *final(self) == *old(self),
            line_indices@.len() > 0 && old(self).height > 0 ==> {
                let len = line_indices@.len() as int;
                let max_scroll = sat_sub(len, old(self).height as int);
                let new_scroll = if delta > 0 {
                    min_int(old(self).scroll_position + delta, max_scroll)
                } else {
                    sat_sub(old(self).scroll_position as int, -delta)
                };
                &&& final(self).cache is None
                &&& final(self).scroll_position == new_scroll
                &&& strictly_sorted(line_indices@) ==> {
                    let cur = index_of(line_indices@, old(self).anchor_line);
                    let bottom = new_scroll + old(self).height - 1;
                    final(self).anchor_line == if delta > 0 && cur < new_scroll {
                        line_indices@[new_scroll]
                    } else if delta <= 0 && cur > bottom {
                        line_indices@[min_int(bottom, len - 1)]
                    } else {
                        old(self).anchor_line
                    }
                }
            },
            strictly_sorted(line_indices@) ==> *final(self) == after_move_viewport(
                *old(self),
                delta as int,
                line_indices@,
            ),
    {
        if line_indices.len() == 0 || self.height == 0 {
            return;
        }
        let len = line_indices.len();
        let max_scroll = sub_sat(len, self.height);
        let current_idx = self.find_index(line_indices);
        if delta > 0 {
            self.scroll_position = add_capped(self.scroll_position, delta as usize, max_scroll);
            if current_idx < self.scroll_position {
                self.anchor_line = line_indices[self.scroll_position];
            }
        } else {
            self.scroll_position = if delta == 0 {
                self.scroll_position
            } else {
                sub_sat(self.scroll_position, neg_magnitude(delta))
            };
            // bottom = scroll + height - 1; compared without overflow
            let scroll = self.scroll_position;
            let h1 = self.height - 1;
            if current_idx > scroll && current_idx - scroll > h1 {
                let target: usize = if scroll <= len - 1 && h1 <= len - 1 - scroll {
                    scroll + h1
                } else {
                    len - 1
                };
                self.anchor_line = line_indices[target];
            }
        }
        self.cache = None;
    }

    /// Move both selection and viewport together (for mouse scroll)
    pub fn scroll_with_selection(&mut self, delta: i32, line_indices: &[usize])
        ensures
            final(self).height == old(self).height,
            final(self).edge_padding == old(self).edge_padding,
            line_indices@.len() == 0 ==> *final(self) == *old(self),
            line_indices@.len() > 0 ==> {
                let len = line_indices@.len() as int;
                let max_scroll = sat_sub(len, max_int(old(self).height as int, 1));
                &&& final(self).cache is None
                &&& final(self).scroll_position == if delta >= 0 {
                    min_int(old(self).scroll_position + delta, max_scroll)
                } else {
                    sat_sub(old(self).scroll_position as int, -delta)
                }
                &&& exists|i: int| 0 <= i < len && final(self).anchor_line == line_indices@[i]
                &&& strictly_sorted(line_indices@) ==> {
                    let cur = index_of(line_indices@, old(self).anchor_line);
                    final(self).anchor_line == line_indices@[if delta >= 0 {
                        min_int(cur + delta, len - 1)
                    } else {
                        sat_sub(cur, -delta)
                    }]
                }
            },
            strictly_sorted(line_indices@) ==> *final(self) == after_scroll_with_selection(
                *old(self),
                delta as int,
                line_indices@,
            ),
    {
        if line_indices.len() == 0 {
            return;
        }
        let len = line_indices.len();
        let h = if self.height >= 1 {
            self.height
        } else {
            1
        };
        let max_scroll = sub_sat(len, h);
        let current_idx = self.find_index(line_indices);
        if delta >= 0 {
            let d = delta as usize;
            self.scroll_position = add_capped(self.scroll_position, d, max_scroll);
            let new_idx = add_capped(current_idx, d, len - 1);
            self.anchor_line = line_indices[new_idx];
        } else {
            let d = neg_magnitude(delta);
            self.scroll_position = sub_sat(self.scroll_position, d);
            let new_idx = sub_sat(current_idx, d);
            self.anchor_line = line_indices[new_idx];
        }
        self.cache = None;
    }

    /// Jump to a specific file line number
    pub fn jump_to_line(&mut self, line: usize)
        ensures
            *final(self) == (Viewport { anchor_line: line, cache: None, ..*old(self) }),
    {
        self.anchor_line = line;
        self.cache = None;
    }

    /// Get current screen offset (rows from top of viewport to selection)
    pub fn get_screen_offset(&self, line_indices: &[usize]) -> (r: usize)
        ensures
            line_indices@.len() == 0 ==> r == 0,
            strictly_sorted(line_indices@) ==> r == sat_sub(
                index_of(line_indices@, self.anchor_line),
                self.scroll_position as int,
            ),
    {
        let idx = self.find_index(line_indices);
        sub_sat(idx, self.scroll_position)
    }

    /// Jump to a specific file line number at a given screen offset
    /// Used to maintain visual position when content changes (e.g., filtering)
    pub fn jump_to_line_at_offset(&mut self, line: usize, screen_offset: usize, line_indices: &[usize])
        ensures
            final(self).height == old(self).height,
            final(self).edge_padding == old(self).edge_padding,
            line_indices@.len() == 0 ==> *final(self) == *old(self),
            line_indices@.len() > 0 ==> {
                &&& final(self).anchor_line == line
                &&& final(self).cache is None
                &&& final(self).scroll_position <= sat_sub(
                    line_indices@.len() as int,
                    max_int(old(self).height as int, 1),
                )
                &&& strictly_sorted(line_indices@) ==> final(self).scroll_position == min_int(
                    sat_sub(index_of(line_indices@, line), screen_offset as int),
                    sat_sub(line_indices@.len() as int, max_int(old(self).height as int, 1)),
                )
            },
            strictly_sorted(line_indices@) ==> *final(self) == after_jump_at_offset(
                *old(self),
                line,
                screen_offset as int,
                line_indices@,
            ),
    {
        if line_indices.len() == 0 {
            return;
        }
        self.anchor_line = line;
        let new_idx = self.find_index(line_indices);
        let scroll = sub_sat(new_idx, screen_offset);
        let h = if self.height >= 1 {
            self.height
        } else {
            1
        };
        let max_scroll = sub_sat(line_indices.len(), h);
        self.scroll_position = if scroll <= max_scroll {
            scroll
        } else {
            max_scroll
        };
        self.cache = None;
    }

    /// Jump to a specific index in the current view
    pub fn jump_to_index(&mut self, index: usize, line_indices: &[usize])
        ensures
            line_indices@.len() == 0 ==> *final(self) == *old(self),
            line_indices@.len() > 0 ==> *final(self) == (Viewport {
                anchor_line: line_indices@[min_int(index as int, line_indices@.len() - 1)],
                cache: None,
                ..*old(self)
            }),
    {
        if line_indices.len() == 0 {
            return;
        }
        let last = line_indices.len() - 1;
        let index = if index <= last {
            index
        } else {
            last
        };
        self.anchor_line = line_indices[index];
        self.cache = None;
    }

    /// Jump to start (first line)
    pub fn jump_to_start(&mut self, line_indices: &[usize])
        ensures
            line_indices@.len() == 0 ==> *final(self) == *old(self),
            line_indices@.len() > 0 ==> *final(self) == (Viewport {
                anchor_line: line_indices@[0],
                scroll_position: 0,
                cache: None,
                ..*old(self)
            }),
    {
        if line_indices.len() > 0 {
            self.anchor_line = line_indices[0];
            self.scroll_position = 0;
            self.cache = None;
        }
    }

    /// Jump to end (last line)
    pub fn jump_to_end(&mut self, line_indices: &[usize])
        ensures
            line_indices@.len() == 0 ==> *final(self) == *old(self),
            line_indices@.len() > 0 ==> *final(self) == (Viewport {
                anchor_line: line_indices@.last(),
                scroll_position: sat_sub(line_indices@.len() as int, old(self).height as int) as usize,
                cache: None,
                ..*old(self)
            }),
    {
        if line_indices.len() > 0 {
            self.anchor_line = line_indices[line_indices.len() - 1];
            self.scroll_position = sub_sat(line_indices.len(), self.height);
            self.cache = None;
        }
    }

    /// Center the current selection on screen
    pub fn center(&mut self, line_indices: &[usize])
        ensures
            final(self).anchor_line == old(self).anchor_line,
            final(self).height == old(self).height,
            final(self).edge_padding == old(self).edge_padding,
            line_indices@.len() == 0 || old(self).height == 0 ==> *final(self) == *old(self),
            line_indices@.len() > 0 && old(self).height > 0 ==> {
                &&& final(self).cache is None
                &&& final(self).scroll_position <= sat_sub(
                    line_indices@.len() as int,
                    old(self).height as int,
                )
                &&& strictly_sorted(line_indices@) ==> final(self).scroll_position == min_int(
                    sat_sub(
                        index_of(line_indices@, old(self).anchor_line),
                        old(self).height as int / 2,
                    ),
                    sat_sub(line_indices@.len() as int, old(self).height as int),
                )
            },
            strictly_sorted(line_indices@) ==> *final(self) == after_center(*old(self), line_indices@),
    {
        if line_indices.len() == 0 || self.height == 0 {
            return;
        }
        let current_idx = self.find_index(line_indices);
        let half_height = self.height / 2;
        let scroll = sub_sat(current_idx, half_height);
        let max_scroll = sub_sat(line_indices.len(), self.height);
        self.scroll_position = if scroll <= max_scroll {
            scroll
        } else {
            max_scroll
        };
        self.cache = None;
    }

    /// Move selection to top of viewport (with padding)
    pub fn anchor_to_top(&mut self, line_indices: &[usize])
        ensures
            line_indices@.len() == 0 ==> *final(self) == *old(self),
            line_indices@.len() > 0 ==> *final(self) == (Viewport {
                anchor_line: line_indices@[min_int(
                    old(self).scroll_position + edge_pad(
                        old(self).height as int,
                        old(self).edge_padding as int,
                    ),
                    line_indices@.len() - 1,
                )],
                cache: None,
                ..*old(self)
            }),
    {
        if line_indices.len() == 0 {
            return;
        }
        let padding: usize = if self.edge_padding <= self.height / 4 {
            self.edge_padding
        } else {
            self.height / 4
        };
        let target_idx = add_capped(self.scroll_position, padding, line_indices.len() - 1);
        self.anchor_line = line_indices[target_idx];
        self.cache = None;
    }

    /// Move selection to bottom of viewport (with padding)
    pub fn anchor_to_bottom(&mut self, line_indices: &[usize])
        ensures
            line_indices@.len() == 0 || old(self).height == 0 ==> *final(self) == *old(self),
            line_indices@.len() > 0 && old(self).height > 0 ==> *final(self) == (Viewport {
                anchor_line: line_indices@[min_int(
                    sat_sub(
                        old(self).scroll_position + old(self).height,
                        1 + edge_pad(old(self).height as int, old(self).edge_padding as int),
                    ),
                    line_indices@.len() - 1,
                )],
                cache: None,
                ..*old(self)
            }),
    {
        if line_indices.len() == 0 || self.height == 0 {
            return;
        }
        let padding: usize = if self.edge_padding <= self.height / 4 {
            self.edge_padding
        } else {
            self.height / 4
        };
        // (scroll + height).saturating_sub(1 + padding), without overflow
        let s = self.scroll_position;
        let need = 1 + padding;  // padding <= height / 4, so no overflow
        let t: usize = if s >= need {
            add_capped(s - need, self.height, usize::MAX)
        } else {
            sub_sat(self.height, need - s)
        };
        let last = line_indices.len() - 1;
        let target_idx = if t <= last {
            t
        } else {
            last
        };
        self.anchor_line = line_indices[target_idx];
        self.cache = None;
    }

    /// Preserve screen offset when content changes (e.g., filter cleared)
    /// Call this AFTER line_indices changes but with the new line_indices
    pub fn preserve_screen_offset(&mut self, new_line_indices: &[usize])
        ensures
            final(self).anchor_line == old(self).anchor_line,
            final(self).height == old(self).height,
            final(self).edge_padding == old(self).edge_padding,
            new_line_indices@.len() == 0 ==> *final(self) == *old(self),
            new_line_indices@.len() > 0 ==> {
                let max_scroll = sat_sub(
                    new_line_indices@.len() as int,
                    max_int(old(self).height as int, 1),
                );
                &&& final(self).cache is None
                &&& final(self).scroll_position <= max_scroll
                &&& strictly_sorted(new_line_indices@) ==> {
                    let new_idx = index_of(new_line_indices@, old(self).anchor_line);
                    let offset = match old(self).cache {
                        Some(c) => sat_sub(c.selected_index as int, c.scroll_position as int),
                        None => sat_sub(new_idx, old(self).scroll_position as int),
                    };
                    final(self).scroll_position == min_int(sat_sub(new_idx, offset), max_scroll)
                }
            },
            strictly_sorted(new_line_indices@) ==> *final(self) == after_preserve_offset(
                *old(self),
                new_line_indices@,
            ),
    {
        if new_line_indices.len() == 0 {
            return;
        }
        let screen_offset = match self.cache {
            Some(c) => sub_sat(c.selected_index, c.scroll_position),
            None => {
                let old_idx = self.find_index(new_line_indices);
                sub_sat(old_idx, self.scroll_position)
            },
        };
        let new_idx = self.find_index(new_line_indices);
        let scroll = sub_sat(new_idx, screen_offset);
        let h = if self.height >= 1 {
            self.height
        } else {
            1
        };
        let max_scroll = sub_sat(new_line_indices.len(), h);
        self.scroll_position = if scroll <= max_scroll {
            scroll
        } else {
            max_scroll
        };
        self.cache = None;
    }

    /// Get the currently selected file line number
    pub fn selected_line(&self) -> (r: usize)
        ensures
            r == self.anchor_line,
    {
        self.anchor_line
    }

    /// Get the cached selected index (call resolve() first)
    pub fn selected_index(&self) -> (r: usize)
        ensures
            r == match self.cache {
                Some(c) => c.selected_index,
                None => 0,
            },
    {
        match self.cache {
            Some(c) => c.selected_index,
            None => 0,
        }
    }

    /// Get the cached scroll position (call resolve() first)
    pub fn scroll_position(&self) -> (r: usize)
        ensures
            r == match self.cache {
                Some(c) => c.scroll_position,
                None => 0,
            },
    {
        match self.cache {
            Some(c) => c.scroll_position,
            None => 0,
        }
    }

    /// Get current height
    pub fn height(&self) -> (r: usize)
        ensures
            r == self.height,
    {
        self.height
    }

    /// Set height (usually called during resolve, but can be set explicitly)
    pub fn set_height(&mut self, height: usize)
        ensures
            old(self).height == height ==> *final(self) == *old(self),
            old(self).height != height ==> *final(self) == (Viewport {
                height,
                cache: None,
                ..*old(self)
            }),
    {
        if self.height != height {
            self.height = height;
            self.cache = None;
        }
    }
}

} // verus!
