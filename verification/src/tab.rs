//! Per-tab view state: which lines are visible, which one is selected, the
//! filter applied to the source and the lines shown expanded.
//!
//! The tab keeps `selected_line` (a position in `line_indices`) in step with
//! the viewport's anchor line after every navigation step.
use crate::viewport::{
    Viewport, strictly_sorted, index_of, lower_bound_exec, sat_sub, after_move_selection,
    after_scroll_with_selection, after_move_viewport, after_center, after_jump_at_offset,
    after_preserve_offset, nearest_index, lemma_lower_bound_props,
    min_int, edge_pad,
};
use std::collections::HashSet;
use vstd::prelude::*;

verus! {

broadcast use vstd::std_specs::hash::group_hash_axioms;

/// Mode for expanding log entries
#[derive(Debug, Clone, Copy, PartialEq, Eq, Structural)]
pub enum ExpandMode {
    /// Allow multiple expanded entries
    Multiple,
    /// Only one expanded at a time
    Single,
}

impl Default for ExpandMode {
    fn default() -> (r: Self)
        ensures
            r == ExpandMode::Multiple,
    {
        ExpandMode::Multiple
    }
}

/// What the tab shows: every line, or the lines a filter kept.
#[derive(Debug, Clone, Copy, PartialEq, Eq, Structural)]
pub enum ViewMode {
    Normal,
    Filtered,
    Aggregation,
}

/// Progress of the filter running on a tab.
#[derive(Debug, Clone, Copy, PartialEq, Eq, Structural)]
pub enum FilterState {
    Inactive,
    Processing { lines_processed: usize },
    Complete { matches: usize },
}

impl Default for FilterState {
    fn default() -> (r: Self)
        ensures
            r == FilterState::Inactive,
    {
        FilterState::Inactive
    }
}

/// Filter-related state for a tab.
///
/// `M` is the filter mode, `Rx` the channel on which a running filter
/// reports progress and `C` the token that cancels it; the tab only stores
/// them.
pub struct FilterConfig<M, Rx, C> {
    /// Current filter state (Inactive, Processing, Complete)
    pub state: FilterState,
    /// Current filter pattern (if any)
    pub pattern: Option<String>,
    /// Filter mode (Plain or Regex, with case sensitivity)
    pub mode: M,
    /// Channel receiver for filter progress updates
    pub receiver: Option<Rx>,
    /// Cancellation token for the current filter operation
    pub cancel_token: Option<C>,
    /// Whether current filter operation is incremental
    pub is_incremental: bool,
    /// Last line number that was filtered (for incremental filtering)
    pub last_filtered_line: usize,
    /// Original line when filter started (for restoring on Esc)
    pub origin_line: Option<usize>,
}

impl<M: Default, Rx, C> Default for FilterConfig<M, Rx, C> {
    fn default() -> (r: Self)
        ensures
            r.state == FilterState::Inactive,
            r.pattern is None,
            r.receiver is None,
            r.cancel_token is None,
            !r.is_incremental,
            r.last_filtered_line == 0,
            r.origin_line is None,
    {
        FilterConfig {
            state: FilterState::Inactive,
            pattern: None,
            mode: M::default(),
            receiver: None,
            cancel_token: None,
            is_incremental: false,
            last_filtered_line: 0,
            origin_line: None,
        }
    }
}

/// Line expansion state for a tab
pub struct ExpansionState {
    /// Set of expanded line numbers (file line numbers, not indices)
    pub expanded_lines: HashSet<usize>,
    /// Mode for expanding (Multiple or Single)
    pub mode: ExpandMode,
}

impl Default for ExpansionState {
    fn default() -> (r: Self)
        ensures
            r.expanded_lines@ == Set::<usize>::empty(),
            r.mode == ExpandMode::Multiple,
    {
        ExpansionState { expanded_lines: HashSet::new(), mode: ExpandMode::Multiple }
    }
}

/// Per-tab state for viewing a single log source.
///
/// `R` is the reader the tab reads lines from and `W` the watcher that
/// reports changes of its file; the remaining parameters are those of
/// [`FilterConfig`].
pub struct TabState<R, W, M, Rx, C> {
    /// Display name (filename)
    pub name: String,
    /// Source file path (None for stdin)
    pub source_path: Option<String>,
    /// Current view mode (Normal or Filtered)
    pub mode: ViewMode,
    /// Total number of lines in the source
    pub total_lines: usize,
    /// Indices of lines to display (all lines or filtered results)
    pub line_indices: Vec<usize>,
    /// Current scroll position (synced from viewport for compatibility)
    pub scroll_position: usize,
    /// Currently selected line index (synced from viewport for compatibility)
    pub selected_line: usize,
    /// Follow mode - auto-scroll to latest logs
    pub follow_mode: bool,
    /// Per-tab reader
    pub reader: R,
    /// Per-tab file watcher
    pub watcher: Option<W>,
    /// Viewport for anchor-based scroll/selection management
    pub viewport: Viewport,
    /// Filter configuration and state
    pub filter: FilterConfig<M, Rx, C>,
    /// Line expansion state
    pub expansion: ExpansionState,
}

/// `0, 1, .., n - 1`
pub open spec fn all_lines(n: nat) -> Seq<usize> {
    Seq::new(n, |i: int| i as usize)
}

/// Position in `s` of the line `anchor`, or of the first line after it, or
/// the last position when every line comes before it.
pub open spec fn synced_index(s: Seq<usize>, anchor: usize) -> int {
    index_of(s, anchor)
}

/// The line of `s` nearest to `target` (the earlier one on a tie), or
/// `target` itself when `s` is empty.
pub open spec fn nearest_line(s: Seq<usize>, target: usize) -> usize {
    if s.len() == 0 {
        target
    } else {
        s[nearest_index(s, target)]
    }
}

/// The expanded lines after toggling `line`: collapsed when it was
/// expanded; otherwise expanded, alone in `Single` mode.
pub open spec fn toggled(set: Set<usize>, line: usize, mode: ExpandMode) -> Set<usize> {
    if set.contains(line) {
        set.remove(line)
    } else if mode == ExpandMode::Single {
        Set::<usize>::empty().insert(line)
    } else {
        set.insert(line)
    }
}

/// In `Multiple` mode, toggling the same line twice leaves the expanded
/// lines as they were.
pub proof fn lemma_toggle_twice(set: Set<usize>, line: usize)
    ensures
        toggled(toggled(set, line, ExpandMode::Multiple), line, ExpandMode::Multiple) == set,
{
    if set.contains(line) {
        assert(set.remove(line).insert(line) =~= set);
    } else {
        assert(set.insert(line).remove(line) =~= set);
    }
}

/// `0, 1, .., n - 1` as a vector.
fn all_lines_vec(n: usize) -> (r: Vec<usize>)
    ensures
        r@ == all_lines(n as nat),
{
    let mut v: Vec<usize> = Vec::new();
    let mut i: usize = 0;
    while i < n
        invariant
            i <= n,
            v@ == all_lines(i as nat),
        decreases n - i,
    {
        v.push(i);
        i = i + 1;
        assert(v@ =~= all_lines(i as nat));
    }
    v
}

/// `0, 1, .., n - 1` is strictly increasing.
pub proof fn lemma_all_lines_sorted(n: nat)
    requires
        n <= usize::MAX,
    ensures
        strictly_sorted(all_lines(n)),
        all_lines(n).len() == n,
{
    assert forall|i: int, j: int| 0 <= i < j < n implies all_lines(n)[i] < all_lines(n)[j] by {
        assert(all_lines(n)[i] == i);
        assert(all_lines(n)[j] == j);
    }
}

impl<R, W, M, Rx, C> TabState<R, W, M, Rx, C> {
    /// Every field but the viewport and the selected position is the same in
    /// `self` and `other`.
    pub open spec fn same_but_view(&self, other: &Self) -> bool {
        &&& self.name == other.name
        &&& self.source_path == other.source_path
        &&& self.mode == other.mode
        &&& self.total_lines == other.total_lines
        &&& self.line_indices@ == other.line_indices@
        &&& self.scroll_position == other.scroll_position
        &&& self.follow_mode == other.follow_mode
        &&& self.reader == other.reader
        &&& self.watcher == other.watcher
        &&& self.filter == other.filter
        &&& self.expansion.expanded_lines@ == other.expansion.expanded_lines@
        &&& self.expansion.mode == other.expansion.mode
    }

    /// The selected position agrees with the viewport's anchor line.
    pub open spec fn in_sync(&self) -> bool {
        self.selected_line == synced_index(self.line_indices@, self.viewport.anchor_line)
    }

    /// A tab over a source of `total_lines` lines, showing all of them, in
    /// follow mode with the last line selected.
    pub fn from_source(
        name: String,
        source_path: Option<String>,
        total_lines: usize,
        reader: R,
        watcher: Option<W>,
    ) -> (t: Self) where M: Default
        ensures
            t.name == name,
            t.source_path == source_path,
            t.mode == ViewMode::Normal,
            t.total_lines == total_lines,
            t.line_indices@ == all_lines(total_lines as nat),
            t.scroll_position == 0,
            t.selected_line == sat_sub(total_lines as int, 1),
            t.follow_mode,
            t.reader == reader,
            t.watcher == watcher,
            t.viewport.anchor_line == sat_sub(total_lines as int, 1),
            t.viewport.scroll_position == 0,
            t.viewport.height == 0,
            t.viewport.edge_padding == 3,
            t.viewport.cache is None,
            t.filter.state == FilterState::Inactive,
            t.filter.pattern is None,
            t.filter.receiver is None,
            t.filter.cancel_token is None,
            !t.filter.is_incremental,
            t.filter.last_filtered_line == 0,
            t.filter.origin_line is None,
            t.expansion.expanded_lines@ == Set::<usize>::empty(),
            t.expansion.mode == ExpandMode::Multiple,
    {
        let line_indices = all_lines_vec(total_lines);
        let selected_line: usize = if total_lines > 0 {
            total_lines - 1
        } else {
            0
        };
        TabState {
            name,
            source_path,
            mode: ViewMode::Normal,
            total_lines,
            line_indices,
            scroll_position: 0,
            selected_line,
            follow_mode: true,
            reader,
            watcher,
            viewport: Viewport::new(selected_line),
            filter: FilterConfig::default(),
            expansion: ExpansionState::default(),
        }
    }

    /// Check if a line is expanded
    pub fn is_line_expanded(&self, file_line_number: usize) -> (r: bool)
        ensures
            r == self.expansion.expanded_lines@.contains(file_line_number),
    {
        self.expansion.expanded_lines.contains(&file_line_number)
    }

    /// Get the number of visible lines
    pub fn visible_line_count(&self) -> (r: usize)
        ensures
            r == self.line_indices@.len(),
    {
        self.line_indices.len()
    }

    /// Sync the selected position from the viewport's anchor line.
    fn sync_from_viewport(&mut self)
        ensures
            final(self).same_but_view(&*old(self)),
            final(self).viewport == old(self).viewport,
            final(self).line_indices@.len() > 0 ==> final(self).selected_line
                < final(self).line_indices@.len(),
            final(self).line_indices@.len() == 0 ==> final(self).selected_line == 0,
            strictly_sorted(final(self).line_indices@) ==> final(self).in_sync(),
    {
        let anchor_line = self.viewport.selected_line();
        let len = self.line_indices.len();
        let k = lower_bound_exec(self.line_indices.as_slice(), anchor_line);
        self.selected_line = if k < len {
            k
        } else if len > 0 {
            len - 1
        } else {
            0
        };
    }

    /// Scroll down by one line
    pub fn scroll_down(&mut self)
        ensures
            final(self).same_but_view(&*old(self)),
            strictly_sorted(old(self).line_indices@) ==> {
                &&& final(self).viewport == after_move_selection(
                    old(self).viewport,
                    1,
                    old(self).line_indices@,
                )
                &&& final(self).in_sync()
            },
    {
        self.viewport.move_selection(1, self.line_indices.as_slice());
        self.sync_from_viewport();
    }

    /// Scroll up by one line
    pub fn scroll_up(&mut self)
        ensures
            final(self).same_but_view(&*old(self)),
            strictly_sorted(old(self).line_indices@) ==> {
                &&& final(self).viewport == after_move_selection(
                    old(self).viewport,
                    -1,
                    old(self).line_indices@,
                )
                &&& final(self).in_sync()
            },
    {
        self.viewport.move_selection(-1, self.line_indices.as_slice());
        self.sync_from_viewport();
    }

    /// Scroll down by page (the page size taken as an `i32`, wrapping as
    /// `as` does)
    pub fn page_down(&mut self, page_size: usize)
        ensures
            final(self).same_but_view(&*old(self)),
            strictly_sorted(old(self).line_indices@) ==> {
                &&& final(self).viewport == after_move_selection(
                    old(self).viewport,
                    page_size as i32 as int,
                    old(self).line_indices@,
                )
                &&& final(self).in_sync()
            },
    {
        self.viewport.move_selection(page_size as i32, self.line_indices.as_slice());
        self.sync_from_viewport();
    }

    /// Scroll up by page (the page size taken as an `i32`, wrapping as `as`
    /// does; its negation must not overflow)
    pub fn page_up(&mut self, page_size: usize)
        requires
            page_size as i32 != i32::MIN,
        ensures
            final(self).same_but_view(&*old(self)),
            strictly_sorted(old(self).line_indices@) ==> {
                &&& final(self).viewport == after_move_selection(
                    old(self).viewport,
                    -(page_size as i32 as int),
                    old(self).line_indices@,
                )
                &&& final(self).in_sync()
            },
    {
        self.viewport.move_selection(-(page_size as i32), self.line_indices.as_slice());
        self.sync_from_viewport();
    }

    /// Mouse scroll down - moves viewport and selection together (the line
    /// count taken as an `i32`, wrapping as `as` does)
    pub fn mouse_scroll_down(&mut self, lines: usize)
        ensures
            final(self).same_but_view(&*old(self)),
            strictly_sorted(old(self).line_indices@) ==> {
                &&& final(self).viewport == after_scroll_with_selection(
                    old(self).viewport,
                    lines as i32 as int,
                    old(self).line_indices@,
                )
                &&& final(self).in_sync()
            },
    {
        self.viewport.scroll_with_selection(lines as i32, self.line_indices.as_slice());
        self.sync_from_viewport();
    }

    /// Mouse scroll up - moves viewport and selection together (the line
    /// count taken as an `i32`, wrapping as `as` does; its negation must not
    /// overflow)
    pub fn mouse_scroll_up(&mut self, lines: usize)
        requires
            lines as i32 != i32::MIN,
        ensures
            final(self).same_but_view(&*old(self)),
            strictly_sorted(old(self).line_indices@) ==> {
                &&& final(self).viewport == after_scroll_with_selection(
                    old(self).viewport,
                    -(lines as i32 as int),
                    old(self).line_indices@,
                )
                &&& final(self).in_sync()
            },
    {
        self.viewport.scroll_with_selection(-(lines as i32), self.line_indices.as_slice());
        self.sync_from_viewport();
    }

    /// Viewport scroll down (Ctrl+E) - scroll viewport without moving selection
    pub fn viewport_down(&mut self)
        ensures
            final(self).same_but_view(&*old(self)),
            strictly_sorted(old(self).line_indices@) ==> {
                &&& final(self).viewport == after_move_viewport(
                    old(self).viewport,
                    1,
                    old(self).line_indices@,
                )
                &&& final(self).in_sync()
            },
    {
        self.viewport.move_viewport(1, self.line_indices.as_slice());
        self.sync_from_viewport();
    }

    /// Viewport scroll up (Ctrl+Y) - scroll viewport without moving selection
    pub fn viewport_up(&mut self)
        ensures
            final(self).same_but_view(&*old(self)),
            strictly_sorted(old(self).line_indices@) ==> {
                &&& final(self).viewport == after_move_viewport(
                    old(self).viewport,
                    -1,
                    old(self).line_indices@,
                )
                &&& final(self).in_sync()
            },
    {
        self.viewport.move_viewport(-1, self.line_indices.as_slice());
        self.sync_from_viewport();
    }
    /// Every field but the line list, the view and the filter is the same in
    /// `self` and `other`.
    pub open spec fn same_source(&self, other: &Self) -> bool {
        &&& self.name == other.name
        &&& self.source_path == other.source_path
        &&& self.total_lines == other.total_lines
        &&& self.scroll_position == other.scroll_position
        &&& self.follow_mode == other.follow_mode
        &&& self.reader == other.reader
        &&& self.watcher == other.watcher
        &&& self.expansion.expanded_lines@ == other.expansion.expanded_lines@
        &&& self.expansion.mode == other.expansion.mode
    }

    /// Apply filter results (for full filtering)
    ///
    /// When the filter started from a line (`origin_line`), the match nearest
    /// to it is selected at the screen row the selection had before.
    pub fn apply_filter(&mut self, matching_indices: Vec<usize>, pattern: String)
        ensures
            final(self).same_source(&*old(self)),
            final(self).line_indices@ == matching_indices@,
            final(self).mode == ViewMode::Filtered,
            final(self).filter.pattern == Some(pattern),
            final(self).filter.state == (FilterState::Complete { matches: matching_indices@.len() as usize }),
            final(self).filter.last_filtered_line == old(self).total_lines,
            final(self).filter.mode == old(self).filter.mode,
            final(self).filter.receiver == old(self).filter.receiver,
            final(self).filter.cancel_token == old(self).filter.cancel_token,
            final(self).filter.is_incremental == old(self).filter.is_incremental,
            final(self).filter.origin_line == old(self).filter.origin_line,
            old(self).filter.origin_line is None || matching_indices@.len() == 0 ==> final(self).viewport
                == old(self).viewport,
            ({
                let s = matching_indices@;
                let old_s = old(self).line_indices@;
                let v = old(self).viewport;
                match old(self).filter.origin_line {
                    Some(origin) => s.len() > 0 && strictly_sorted(s) && strictly_sorted(old_s)
                        ==> final(self).viewport == after_jump_at_offset(
                        v,
                        nearest_line(s, origin),
                        sat_sub(index_of(old_s, v.anchor_line), v.scroll_position as int),
                        s,
                    ),
                    None => true,
                }
            }),
            matching_indices@.len() > 0 ==> final(self).selected_line < matching_indices@.len(),
            matching_indices@.len() == 0 ==> final(self).selected_line == 0,
            strictly_sorted(matching_indices@) ==> final(self).in_sync(),
    {
        // Capture screen offset BEFORE changing line_indices
        let screen_offset = self.viewport.get_screen_offset(self.line_indices.as_slice());
        self.line_indices = matching_indices;
        self.mode = ViewMode::Filtered;
        self.filter.pattern = Some(pattern);
        self.filter.state = FilterState::Complete { matches: self.line_indices.len() };
        self.filter.last_filtered_line = self.total_lines;
        if let Some(origin) = self.filter.origin_line {
            if self.line_indices.len() > 0 {
                let nearest_line = self.find_nearest_line(origin);
                self.viewport.jump_to_line_at_offset(
                    nearest_line,
                    screen_offset,
                    self.line_indices.as_slice(),
                );
            }
        }
        self.sync_from_viewport();
    }

    /// Find the line in line_indices nearest to target
    fn find_nearest_line(&self, target: usize) -> (r: usize)
        ensures
            self.line_indices@.len() == 0 ==> r == target,
            strictly_sorted(self.line_indices@) ==> r == nearest_line(self.line_indices@, target),
    {
        let s = self.line_indices.as_slice();
        let len = s.len();
        if len == 0 {
            return target;
        }
        let k = lower_bound_exec(s, target);
        proof {
            if strictly_sorted(s@) {
                lemma_lower_bound_props(s@, target);
            }
        }
        if k < len && s[k] == target {
            target
        } else if k == 0 {
            s[0]
        } else if k >= len {
            s[len - 1]
        } else {
            let before = s[k - 1];
            let after = s[k];
            if target - before <= after - target {
                before
            } else {
                after
            }
        }
    }

    /// Append incremental filter results (for new logs only)
    pub fn append_filter_results(&mut self, new_matching_indices: Vec<usize>)
        requires
            old(self).line_indices@.len() + new_matching_indices@.len() <= usize::MAX,
        ensures
            final(self).same_source(&*old(self)),
            final(self).line_indices@ == old(self).line_indices@ + new_matching_indices@,
            final(self).mode == old(self).mode,
            final(self).viewport == old(self).viewport,
            final(self).selected_line == old(self).selected_line,
            final(self).filter.pattern == old(self).filter.pattern,
            final(self).filter.state == (FilterState::Complete {
                matches: (old(self).line_indices@.len() + new_matching_indices@.len()) as usize,
            }),
            final(self).filter.last_filtered_line == old(self).total_lines,
            final(self).filter.mode == old(self).filter.mode,
            final(self).filter.receiver == old(self).filter.receiver,
            final(self).filter.cancel_token == old(self).filter.cancel_token,
            final(self).filter.is_incremental == old(self).filter.is_incremental,
            final(self).filter.origin_line == old(self).filter.origin_line,
    {
        let mut more = new_matching_indices;
        self.line_indices.append(&mut more);
        self.filter.state = FilterState::Complete { matches: self.line_indices.len() };
        self.filter.last_filtered_line = self.total_lines;
    }

    /// Clear filter and return to normal view
    ///
    /// The selection goes back to the line the filter started from, when
    /// there is one; otherwise it keeps its row on screen.
    pub fn clear_filter(&mut self)
        ensures
            final(self).same_source(&*old(self)),
            final(self).line_indices@ == all_lines(old(self).total_lines as nat),
            final(self).mode == ViewMode::Normal,
            final(self).filter.pattern is None,
            final(self).filter.state == FilterState::Inactive,
            final(self).filter.origin_line is None,
            final(self).filter.last_filtered_line == old(self).filter.last_filtered_line,
            final(self).filter.mode == old(self).filter.mode,
            final(self).filter.receiver == old(self).filter.receiver,
            final(self).filter.cancel_token == old(self).filter.cancel_token,
            final(self).filter.is_incremental == old(self).filter.is_incremental,
            final(self).viewport == match old(self).filter.origin_line {
                Some(origin) => Viewport { anchor_line: origin, cache: None, ..old(self).viewport },
                None => after_preserve_offset(
                    old(self).viewport,
                    all_lines(old(self).total_lines as nat),
                ),
            },
            final(self).in_sync(),
    {
        self.line_indices = all_lines_vec(self.total_lines);
        proof {
            lemma_all_lines_sorted(self.total_lines as nat);
        }
        self.mode = ViewMode::Normal;
        self.filter.pattern = None;
        self.filter.state = FilterState::Inactive;
        match self.filter.origin_line.take() {
            Some(origin) => self.viewport.jump_to_line(origin),
            None => self.viewport.preserve_screen_offset(self.line_indices.as_slice()),
        }
        self.sync_from_viewport();
    }

    /// Jump to a specific line number (1-indexed)
    pub fn jump_to_line(&mut self, line_number: usize)
        ensures
            final(self).same_but_view(&*old(self)),
            line_number == 0 || old(self).line_indices@.len() == 0 ==> *final(self) == *old(self),
            line_number > 0 && old(self).line_indices@.len() > 0 ==> final(self).viewport == (Viewport {
                anchor_line: (line_number - 1) as usize,
                cache: None,
                ..old(self).viewport
            }),
            line_number > 0 && old(self).line_indices@.len() > 0 && strictly_sorted(
                old(self).line_indices@,
            ) ==> final(self).in_sync(),
    {
        if line_number == 0 || self.line_indices.len() == 0 {
            return;
        }
        let target_line = line_number - 1;
        self.viewport.jump_to_line(target_line);
        self.sync_from_viewport();
    }

    /// Jump to the end of the log
    pub fn jump_to_end(&mut self)
        ensures
            final(self).same_but_view(&*old(self)),
            old(self).line_indices@.len() == 0 ==> final(self).viewport == old(self).viewport,
            old(self).line_indices@.len() > 0 ==> final(self).viewport == (Viewport {
                anchor_line: old(self).line_indices@.last(),
                scroll_position: sat_sub(
                    old(self).line_indices@.len() as int,
                    old(self).viewport.height as int,
                ) as usize,
                cache: None,
                ..old(self).viewport
            }),
            strictly_sorted(old(self).line_indices@) ==> final(self).in_sync(),
    {
        self.viewport.jump_to_end(self.line_indices.as_slice());
        self.sync_from_viewport();
    }

    /// Jump to the beginning of the log
    pub fn jump_to_start(&mut self)
        ensures
            final(self).same_but_view(&*old(self)),
            old(self).line_indices@.len() == 0 ==> final(self).viewport == old(self).viewport,
            old(self).line_indices@.len() > 0 ==> final(self).viewport == (Viewport {
                anchor_line: old(self).line_indices@[0],
                scroll_position: 0,
                cache: None,
                ..old(self).viewport
            }),
            strictly_sorted(old(self).line_indices@) ==> final(self).in_sync(),
    {
        self.viewport.jump_to_start(self.line_indices.as_slice());
        self.sync_from_viewport();
    }

    /// Toggle follow mode; turning it on jumps to the end.
    pub fn toggle_follow_mode(&mut self)
        ensures
            final(self).follow_mode == !old(self).follow_mode,
            final(self).name == old(self).name,
            final(self).line_indices@ == old(self).line_indices@,
            final(self).mode == old(self).mode,
            final(self).filter == old(self).filter,
            final(self).expansion.expanded_lines@ == old(self).expansion.expanded_lines@,
            old(self).follow_mode ==> final(self).viewport == old(self).viewport
                && final(self).selected_line == old(self).selected_line,
            !old(self).follow_mode && old(self).line_indices@.len() > 0 ==> final(self).viewport == (
            Viewport {
                anchor_line: old(self).line_indices@.last(),
                scroll_position: sat_sub(
                    old(self).line_indices@.len() as int,
                    old(self).viewport.height as int,
                ) as usize,
                cache: None,
                ..old(self).viewport
            }),
            !old(self).follow_mode && strictly_sorted(old(self).line_indices@) ==> final(self).in_sync(),
    {
        self.follow_mode = !self.follow_mode;
        if self.follow_mode {
            self.jump_to_end();
        }
    }

    /// Center the current selection on screen (zz)
    pub fn center_view(&mut self)
        ensures
            final(self).same_but_view(&*old(self)),
            strictly_sorted(old(self).line_indices@) ==> {
                &&& final(self).viewport == after_center(old(self).viewport, old(self).line_indices@)
                &&& final(self).in_sync()
            },
    {
        self.viewport.center(self.line_indices.as_slice());
        self.sync_from_viewport();
    }

    /// Move current selection to top of viewport (zt)
    pub fn view_to_top(&mut self)
        ensures
            final(self).same_but_view(&*old(self)),
            old(self).line_indices@.len() == 0 ==> final(self).viewport == old(self).viewport,
            old(self).line_indices@.len() > 0 ==> final(self).viewport == (Viewport {
                anchor_line: old(self).line_indices@[min_int(
                    old(self).viewport.scroll_position + edge_pad(
                        old(self).viewport.height as int,
                        old(self).viewport.edge_padding as int,
                    ),
                    old(self).line_indices@.len() - 1,
                )],
                cache: None,
                ..old(self).viewport
            }),
            strictly_sorted(old(self).line_indices@) ==> final(self).in_sync(),
    {
        self.viewport.anchor_to_top(self.line_indices.as_slice());
        self.sync_from_viewport();
    }

    /// Move current selection to bottom of viewport (zb)
    pub fn view_to_bottom(&mut self)
        ensures
            final(self).same_but_view(&*old(self)),
            old(self).line_indices@.len() == 0 || old(self).viewport.height == 0 ==> final(self).viewport == old(self).viewport,
            old(self).line_indices@.len() > 0 && old(self).viewport.height > 0 ==> final(self).viewport
                == (Viewport {
                anchor_line: old(self).line_indices@[min_int(
                    sat_sub(
                        old(self).viewport.scroll_position + old(self).viewport.height,
                        1 + edge_pad(
                            old(self).viewport.height as int,
                            old(self).viewport.edge_padding as int,
                        ),
                    ),
                    old(self).line_indices@.len() - 1,
                )],
                cache: None,
                ..old(self).viewport
            }),
            strictly_sorted(old(self).line_indices@) ==> final(self).in_sync(),
    {
        self.viewport.anchor_to_bottom(self.line_indices.as_slice());
        self.sync_from_viewport();
    }

    /// Toggle expansion state of the currently selected line
    ///
    /// In `Single` mode expanding a line collapses every other one.
    pub fn toggle_expansion(&mut self)
        requires
            old(self).line_indices@.len() == 0 || old(self).selected_line < old(self).line_indices@.len(),
        ensures
            final(self).name == old(self).name,
            final(self).line_indices@ == old(self).line_indices@,
            final(self).selected_line == old(self).selected_line,
            final(self).viewport == old(self).viewport,
            final(self).filter == old(self).filter,
            final(self).expansion.mode == old(self).expansion.mode,
            old(self).line_indices@.len() == 0 ==> final(self).expansion.expanded_lines@ == old(
                self,
            ).expansion.expanded_lines@,
            old(self).line_indices@.len() > 0 ==> final(self).expansion.expanded_lines@ == toggled(
                old(self).expansion.expanded_lines@,
                old(self).line_indices@[old(self).selected_line as int],
                old(self).expansion.mode,
            ),
    {
        if self.line_indices.len() == 0 {
            return;
        }
        let file_line_number = self.line_indices[self.selected_line];
        if self.expansion.expanded_lines.contains(&file_line_number) {
            self.expansion.expanded_lines.remove(&file_line_number);
        } else {
            if self.expansion.mode == ExpandMode::Single {
                self.expansion.expanded_lines.clear();
            }
            self.expansion.expanded_lines.insert(file_line_number);
        }
    }

    /// Collapse all expanded lines
    pub fn collapse_all(&mut self)
        ensures
            final(self).expansion.expanded_lines@ == Set::<usize>::empty(),
            final(self).expansion.mode == old(self).expansion.mode,
            final(self).line_indices@ == old(self).line_indices@,
            final(self).viewport == old(self).viewport,
            final(self).selected_line == old(self).selected_line,
    {
        self.expansion.expanded_lines.clear();
    }
}

} // verus!
