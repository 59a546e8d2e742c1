//! Core state management for the TUI
use vstd::prelude::*;
use crate::branch::{Branch, BranchFilter};
use crate::order::{stable_sort_indices, stably_sorted, SortOrder};
use crate::text::{chars_of, contains_chars, contains_seq, occurs_at};

verus! {

/// Current mode of the TUI
#[derive(Debug, Clone, Copy, PartialEq, Eq, Structural)]
pub enum Mode {
    /// Browsing and selecting branches
    Browse,
    /// Typing a search/filter query
    Filter,
    /// Confirming deletion
    Confirm,
    /// Executing deletions
    Executing,
    /// Showing results summary
    Summary,
}

/// Result of attempting to delete a single branch
#[derive(Debug)]
pub struct DeletionResult {
    /// The branch that was deleted (or attempted)
    pub branch: Branch,
    /// Whether deletion succeeded
    pub success: bool,
    /// Error message if deletion failed
    pub error: Option<String>,
}

impl Clone for DeletionResult {
    fn clone(&self) -> (r: Self)
        ensures
            r == *self,
    {
        let error = match &self.error {
            Some(e) => Some(e.clone()),
            None => None,
        };
        DeletionResult { branch: self.branch.clone(), success: self.success, error }
    }
}

/// The lowercase form of `s` (std's `str::to_lowercase`, by Unicode's
/// case mapping, independent of locale).
pub uninterp spec fn lowercase(s: Seq<char>) -> Seq<char>;

/// std: `str::to_lowercase`, claimed to be the function `lowercase` of the
/// text, and empty for empty text; the case tables are not stated.
#[verifier::external_body]
fn to_lowercase(s: &str) -> (r: String)
    ensures
        r@ == lowercase(s@),
        s@.len() == 0 ==> r@.len() == 0,
{
    s.to_lowercase()
}

/// The filter the branch list applies: no minimum age, and the three toggles.
pub open spec fn list_filter(local_only: bool, remote_only: bool, merged_only: bool) -> BranchFilter {
    BranchFilter { min_age_days: 0, local_only, remote_only, merged_only }
}

/// Whether the list shows `b` under filter `f` and search text `query`: it
/// passes the filter and, when the query is not empty, its lowercased name
/// contains the lowercased query.
pub open spec fn shown(b: Branch, f: BranchFilter, query: Seq<char>) -> bool {
    f.accepts(b) && (query.len() == 0 || contains_seq(lowercase(b.name@), lowercase(query)))
}

/// The indices below `k` of the branches shown, in increasing order.
pub open spec fn shown_indices(bs: Seq<Branch>, f: BranchFilter, query: Seq<char>, k: int) -> Seq<usize>
    decreases k,
{
    if k <= 0 {
        seq![]
    } else if shown(bs[k - 1], f, query) {
        shown_indices(bs, f, query, k - 1).push((k - 1) as usize)
    } else {
        shown_indices(bs, f, query, k - 1)
    }
}

/// Whether `i` is one of the indices in `v`.
pub open spec fn lists_index(v: Seq<usize>, i: int) -> bool {
    exists|t: int| 0 <= t < v.len() && v[t] == i
}

/// `c` moved into `0..n` (0 when `n` is 0).
pub open spec fn clamp_cursor(c: usize, n: nat) -> usize {
    if n == 0 {
        0
    } else if c >= n {
        (n - 1) as usize
    } else {
        c
    }
}

/// The number of `true` entries of `sel`.
pub open spec fn count_selected(sel: Seq<bool>) -> nat
    decreases sel.len(),
{
    if sel.len() == 0 {
        0
    } else {
        count_selected(sel.drop_last()) + if sel.last() {
            1nat
        } else {
            0nat
        }
    }
}

/// The number of positions `i` where `sel[i]` holds and `bs[i].is_remote == remote`.
pub open spec fn count_selected_where(sel: Seq<bool>, bs: Seq<Branch>, remote: bool) -> nat
    decreases sel.len(),
{
    if sel.len() == 0 {
        0
    } else {
        let i = sel.len() - 1;
        count_selected_where(sel.drop_last(), bs, remote) + if sel.last() && bs[i].is_remote
            == remote {
            1nat
        } else {
            0nat
        }
    }
}

/// The positions of the `true` entries of `sel`, in increasing order.
pub open spec fn selected_positions(sel: Seq<bool>) -> Seq<int>
    decreases sel.len(),
{
    if sel.len() == 0 {
        seq![]
    } else if sel.last() {
        selected_positions(sel.drop_last()).push(sel.len() - 1)
    } else {
        selected_positions(sel.drop_last())
    }
}

/// Core application state for the TUI
pub struct App {
    /// Current UI mode
    pub mode: Mode,
    /// All branches (unfiltered)
    pub all_branches: Vec<Branch>,
    /// Indices into all_branches that are currently visible (after filtering)
    pub visible: Vec<usize>,
    /// Selection state for each branch in all_branches (parallel to all_branches)
    pub selected: Vec<bool>,
    /// Current cursor position within visible list
    pub cursor: usize,
    /// Whether --force was passed (allows deleting unmerged branches)
    pub force: bool,
    /// The default branch name (e.g. "main")
    pub default_branch: String,
    /// Current sort order
    pub sort_order: SortOrder,
    /// Filter toggle: only show merged branches
    pub filter_merged_only: bool,
    /// Filter toggle: only show local branches
    pub filter_local_only: bool,
    /// Filter toggle: only show remote branches
    pub filter_remote_only: bool,
    /// Current search query text
    pub search_query: String,
    /// Text typed in the confirm dialog
    pub confirm_input: String,
    /// Results of branch deletions
    pub deletion_results: Vec<DeletionResult>,
    /// Path to the backup file created before deletion
    pub backup_path: Option<String>,
    /// Whether execution has finished
    pub execution_done: bool,
    /// Whether the help overlay is shown
    pub show_help: bool,
    /// Scroll offset for the branch list
    pub scroll_offset: usize,
    /// Branches remaining to be deleted (for incremental deletion)
    pub pending_deletions: Vec<Branch>,
}

impl App {
    /// The state's parts agree: one selection flag per branch, and every
    /// visible index names a branch.
    pub open spec fn wf(&self) -> bool {
        &&& self.selected@.len() == self.all_branches@.len()
        &&& self.all_branches@.len() <= usize::MAX
        &&& forall|k: int| 0 <= k < self.visible@.len() ==> #[trigger] self.visible@[k] < self.all_branches@.len()
    }

    /// The filter the list applies now.
    pub open spec fn current_filter(&self) -> BranchFilter {
        list_filter(self.filter_local_only, self.filter_remote_only, self.filter_merged_only)
    }

    /// The indices of the branches the current filters and search show, in
    /// increasing order.
    pub open spec fn candidates(&self) -> Seq<usize> {
        shown_indices(
            self.all_branches@,
            self.current_filter(),
            self.search_query@,
            self.all_branches@.len() as int,
        )
    }

    /// The visible list is what the current settings show, sorted, and the
    /// cursor is `prev_cursor` clamped into it.
    pub open spec fn view_refreshed(&self, prev_cursor: usize) -> bool {
        &&& stably_sorted(self.visible@, self.candidates(), self.all_branches@, self.sort_order)
        &&& self.cursor == clamp_cursor(prev_cursor, self.visible@.len())
    }

    /// The branches, `force`, the default branch, the deletion progress and
    /// the scroll offset are the same in `self` and `o`.
    pub open spec fn same_record(&self, o: &App) -> bool {
        &&& self.all_branches@ == o.all_branches@
        &&& self.force == o.force
        &&& self.default_branch@ == o.default_branch@
        &&& self.deletion_results@ == o.deletion_results@
        &&& self.backup_path == o.backup_path
        &&& self.execution_done == o.execution_done
        &&& self.scroll_offset == o.scroll_offset
        &&& self.pending_deletions@ == o.pending_deletions@
    }

    /// Everything but the list view, the selection, the view settings and
    /// the help overlay is the same in `self` and `o`.
    pub open spec fn same_session(&self, o: &App) -> bool {
        &&& self.mode == o.mode
        &&& self.confirm_input@ == o.confirm_input@
        &&& self.same_record(o)
    }

    /// The view settings (sort order, filter toggles, search text) are the
    /// same in `self` and `o`.
    pub open spec fn same_settings(&self, o: &App) -> bool {
        &&& self.sort_order == o.sort_order
        &&& self.filter_merged_only == o.filter_merged_only
        &&& self.filter_local_only == o.filter_local_only
        &&& self.filter_remote_only == o.filter_remote_only
        &&& self.search_query@ == o.search_query@
    }

    /// Without `force`, only merged branches are selected.
    pub open spec fn selection_safe(&self) -> bool {
        !self.force ==> forall|i: int|
            0 <= i < self.selected@.len() && #[trigger] self.selected@[i] ==> self.all_branches@[i].is_merged
    }

    /// The all_branches index under the cursor, if any.
    pub open spec fn focus(&self) -> Option<usize> {
        if self.cursor < self.visible@.len() {
            Some(self.visible@[self.cursor as int])
        } else {
            None
        }
    }

    /// Re-filter all_branches into visible indices based on current filter
    /// toggles and search query, then sort.
    pub fn update_visible(&mut self)
        requires
            old(self).selected@.len() == old(self).all_branches@.len(),
        ensures
            final(self).wf(),
            final(self).view_refreshed(old(self).cursor),
            final(self).same_session(old(self)),
            final(self).same_settings(old(self)),
            final(self).selected@ == old(self).selected@,
            final(self).show_help == old(self).show_help,
    {
        let filter = BranchFilter {
            min_age_days: 0,
            local_only: self.filter_local_only,
            remote_only: self.filter_remote_only,
            merged_only: self.filter_merged_only,
        };
        let query = to_lowercase(self.search_query.as_str());
        let q = chars_of(query.as_str());
        let n = self.all_branches.len();
        let ghost bs = self.all_branches@;
        let ghost sq = self.search_query@;
        let mut cand: Vec<usize> = Vec::new();
        let mut names: Vec<Vec<char>> = Vec::new();
        let mut i: usize = 0;
        while i < n
            invariant
                i <= n == bs.len(),
                bs == self.all_branches@,
                sq == self.search_query@,
                filter == list_filter(self.filter_local_only, self.filter_remote_only, self.filter_merged_only),
                q@ == lowercase(sq),
                sq.len() == 0 ==> q@.len() == 0,
                cand@ == shown_indices(bs, filter, sq, i as int),
                forall|k: int| 0 <= k < cand@.len() ==> #[trigger] cand@[k] < i,
                names@.len() == i,
                forall|k: int| 0 <= k < i ==> #[trigger] names@[k]@ == bs[k].name@,
            decreases n - i,
        {
            let b = &self.all_branches[i];
            let keep = filter.matches(b) && (q.len() == 0 || contains_chars(
                &chars_of(to_lowercase(b.name.as_str()).as_str()),
                &q,
            ));
            proof {
                let lc = lowercase(bs[i as int].name@);
                if q@.len() == 0 {
                    assert(lc.subrange(0, 0) =~= q@);
                    assert(occurs_at(lc, q@, 0));
                }
            }
            if keep {
                cand.push(i);
            }
            names.push(chars_of(b.name.as_str()));
            i = i + 1;
        }
        let sorted = stable_sort_indices(&cand, &self.all_branches, &names, self.sort_order);
        self.visible = sorted;
        proof {
            broadcast use vstd::seq_lib::to_multiset_contains;
            assert forall|k: int| 0 <= k < self.visible@.len() implies #[trigger] self.visible@[k]
                < self.all_branches@.len() by {
                assert(self.visible@.to_multiset().count(self.visible@[k]) > 0);
                assert(cand@.contains(self.visible@[k]));
            }
        }
        if self.visible.len() == 0 {
            self.cursor = 0;
        } else if self.cursor >= self.visible.len() {
            self.cursor = self.visible.len() - 1;
        }
    }

    /// Create a new App with the given branches and initial filter settings.
    ///
    /// Pre-selects all merged branches and seeds filter toggles from the
    /// initial BranchFilter.
    pub fn new(
        all_branches: Vec<Branch>,
        initial_filter: &BranchFilter,
        default_branch: &str,
        force: bool,
    ) -> (app: Self)
        ensures
            app.wf(),
            app.view_refreshed(0),
            app.all_branches@ == all_branches@,
            app.selected@ == Seq::new(all_branches@.len(), |i: int| all_branches@[i].is_merged),
            app.selection_safe(),
            app.mode == Mode::Browse,
            app.force == force,
            app.default_branch@ == default_branch@,
            app.sort_order == SortOrder::Age,
            app.filter_merged_only == initial_filter.merged_only,
            app.filter_local_only == initial_filter.local_only,
            app.filter_remote_only == initial_filter.remote_only,
            app.search_query@ == Seq::<char>::empty(),
            app.confirm_input@ == Seq::<char>::empty(),
            app.deletion_results@ == Seq::<DeletionResult>::empty(),
            app.backup_path is None,
            !app.execution_done,
            !app.show_help,
            app.scroll_offset == 0,
            app.pending_deletions@ == Seq::<Branch>::empty(),
    {
        // Pre-select merged branches
        let mut selected: Vec<bool> = Vec::new();
        let mut i: usize = 0;
        while i < all_branches.len()
            invariant
                i <= all_branches@.len(),
                selected@ == Seq::new(i as nat, |k: int| all_branches@[k].is_merged),
            decreases all_branches@.len() - i,
        {
            selected.push(all_branches[i].is_merged);
            i = i + 1;
            assert(selected@ =~= Seq::new(i as nat, |k: int| all_branches@[k].is_merged));
        }
        let mut app = App {
            mode: Mode::Browse,
            visible: Vec::new(),
            selected,
            cursor: 0,
            force,
            default_branch: String::from_str(default_branch),
            sort_order: SortOrder::Age,
            filter_merged_only: initial_filter.merged_only,
            filter_local_only: initial_filter.local_only,
            filter_remote_only: initial_filter.remote_only,
            search_query: String::new(),
            confirm_input: String::new(),
            deletion_results: Vec::new(),
            backup_path: None,
            execution_done: false,
            show_help: false,
            scroll_offset: 0,
            pending_deletions: Vec::new(),
            all_branches,
        };
        app.update_visible();
        app
    }

    /// Sort the visible indices by the current sort order.
    /// Always groups merged and unmerged branches together.
    pub fn sort_visible(&mut self)
        requires
            old(self).wf(),
        ensures
            final(self).wf(),
            stably_sorted(final(self).visible@, old(self).visible@, old(self).all_branches@, old(self).sort_order),
            final(self).cursor == old(self).cursor,
            final(self).same_session(old(self)),
            final(self).same_settings(old(self)),
            final(self).selected@ == old(self).selected@,
            final(self).show_help == old(self).show_help,
    {
        let n = self.all_branches.len();
        let mut names: Vec<Vec<char>> = Vec::new();
        let mut i: usize = 0;
        while i < n
            invariant
                i <= n == self.all_branches@.len(),
                names@.len() == i,
                forall|k: int| 0 <= k < i ==> #[trigger] names@[k]@ == self.all_branches@[k].name@,
            decreases n - i,
        {
            names.push(chars_of(self.all_branches[i].name.as_str()));
            i = i + 1;
        }
        let sorted = stable_sort_indices(&self.visible, &self.all_branches, &names, self.sort_order);
        let ghost old_visible = self.visible@;
        self.visible = sorted;
        proof {
            broadcast use vstd::seq_lib::to_multiset_contains;
            assert forall|k: int| 0 <= k < self.visible@.len() implies #[trigger] self.visible@[k]
                < self.all_branches@.len() by {
                assert(self.visible@.to_multiset().count(self.visible@[k]) > 0);
                assert(old_visible.contains(self.visible@[k]));
            }
        }
    }

    // ── Navigation ──────────────────────────────────────────────────

    /// The cursor after moving up: one less, but not below 0.
    pub open spec fn cursor_after_up(&self) -> usize {
        if self.cursor > 0 {
            (self.cursor - 1) as usize
        } else {
            self.cursor
        }
    }

    /// The cursor after moving down: one more, but not past the last row.
    pub open spec fn cursor_after_down(&self) -> usize {
        if self.visible@.len() > 0 && self.cursor < self.visible@.len() - 1 {
            (self.cursor + 1) as usize
        } else {
            self.cursor
        }
    }

    /// The selection after toggling the focused branch: deselecting always
    /// works, selecting only a merged branch or with `force`.
    pub open spec fn selection_after_toggle(&self) -> Seq<bool> {
        match self.focus() {
            None => self.selected@,
            Some(i) => if self.selected@[i as int] {
                self.selected@.update(i as int, false)
            } else if self.all_branches@[i as int].is_merged || self.force {
                self.selected@.update(i as int, true)
            } else {
                self.selected@
            },
        }
    }

    /// The selection after selecting every visible branch that is merged
    /// (or, unless `merged_only`, any visible branch when `force` is set).
    pub open spec fn selection_after_select(&self, merged_only: bool) -> Seq<bool> {
        Seq::new(
            self.selected@.len(),
            |i: int|
                self.selected@[i] || (lists_index(self.visible@, i) && (self.all_branches@[i].is_merged || (
                !merged_only && self.force))),
        )
    }

    /// Move cursor up by one
    pub fn cursor_up(&mut self)
        ensures
            final(self).cursor == old(self).cursor_after_up(),
            final(self).visible@ == old(self).visible@,
            final(self).same_session(old(self)),
            final(self).same_settings(old(self)),
            final(self).selected@ == old(self).selected@,
            final(self).show_help == old(self).show_help,
    {
        if self.cursor > 0 {
            self.cursor -= 1;
        }
    }

    /// Move cursor down by one
    pub fn cursor_down(&mut self)
        ensures
            final(self).cursor == old(self).cursor_after_down(),
            final(self).visible@ == old(self).visible@,
            final(self).same_session(old(self)),
            final(self).same_settings(old(self)),
            final(self).selected@ == old(self).selected@,
            final(self).show_help == old(self).show_help,
    {
        if !self.visible.is_empty() && self.cursor < self.visible.len() - 1 {
            self.cursor += 1;
        }
    }

    /// Get the branch currently under the cursor, if any
    pub fn focused_branch(&self) -> (r: Option<&Branch>)
        requires
            self.wf(),
        ensures
            r == (match self.focus() {
                Some(i) => Some(&self.all_branches@[i as int]),
                None => None,
            }),
    {
        match self.focused_index() {
            Some(i) => Some(&self.all_branches[i]),
            None => None,
        }
    }

    /// Get the all_branches index of the currently focused branch
    pub fn focused_index(&self) -> (r: Option<usize>)
        ensures
            r == self.focus(),
    {
        if self.cursor < self.visible.len() {
            Some(self.visible[self.cursor])
        } else {
            None
        }
    }

    // ── Selection ───────────────────────────────────────────────────

    /// Toggle selection of the focused branch.
    /// Blocks selecting unmerged branches unless force is true.
    pub fn toggle_selection(&mut self)
        requires
            old(self).wf(),
        ensures
            final(self).wf(),
            final(self).selected@ == old(self).selection_after_toggle(),
            old(self).selection_safe() ==> final(self).selection_safe(),
            final(self).visible@ == old(self).visible@,
            final(self).cursor == old(self).cursor,
            final(self).same_session(old(self)),
            final(self).same_settings(old(self)),
            final(self).show_help == old(self).show_help,
    {
        if let Some(idx) = self.focused_index() {
            if self.selected[idx] {
                // Always allow deselection
                self.selected.set(idx, false);
            } else {
                // Only allow selecting unmerged branches with force
                let merged = self.all_branches[idx].is_merged;
                if merged || self.force {
                    self.selected.set(idx, true);
                }
            }
        }
    }

    /// Select all merged branches in the visible list
    pub fn select_all_merged(&mut self)
        requires
            old(self).wf(),
        ensures
            final(self).wf(),
            final(self).selected@ == old(self).selection_after_select(true),
            old(self).selection_safe() ==> final(self).selection_safe(),
            final(self).visible@ == old(self).visible@,
            final(self).cursor == old(self).cursor,
            final(self).same_session(old(self)),
            final(self).same_settings(old(self)),
            final(self).show_help == old(self).show_help,
    {
        let mut k: usize = 0;
        while k < self.visible.len()
            invariant
                k <= self.visible@.len(),
                self.visible@ == old(self).visible@,
                self.all_branches@ == old(self).all_branches@,
                self.selected@.len() == old(self).selected@.len(),
                self.wf(),
                forall|i: int|
                    0 <= i < self.selected@.len() ==> #[trigger] self.selected@[i] == (
                    old(self).selected@[i] || (lists_index(self.visible@.take(k as int), i)
                        && self.all_branches@[i].is_merged)),
                self.cursor == old(self).cursor,
                self.same_session(old(self)),
                self.same_settings(old(self)),
                self.show_help == old(self).show_help,
            decreases self.visible@.len() - k,
        {
            let idx = self.visible[k];
            let ghost before = self.selected@;
            if self.all_branches[idx].is_merged {
                self.selected.set(idx, true);
            }
            proof {
                let prev = self.visible@.take(k as int);
                assert(self.visible@.take(k + 1) =~= prev.push(idx));
                assert forall|i: int| 0 <= i < self.selected@.len() implies #[trigger] self.selected@[i] == (
                    old(self).selected@[i] || (lists_index(self.visible@.take(k + 1), i)
                        && self.all_branches@[i].is_merged)) by {
                    if i == idx as int {
                        assert(prev.push(idx)[prev.len() as int] == idx);
                        assert(lists_index(prev.push(idx), i));
                    } else {
                        assert(self.selected@[i] == before[i]);
                        if lists_index(prev.push(idx), i) {
                            let t = choose|t: int| 0 <= t < prev.push(idx).len() && prev.push(idx)[t] == i;
                            assert(t < prev.len());
                            assert(prev[t] == i);
                        }
                        if lists_index(prev, i) {
                            let t = choose|t: int| 0 <= t < prev.len() && prev[t] == i;
                            assert(prev.push(idx)[t] == i);
                        }
                    }
                }
            }
            k = k + 1;
        }
        assert(self.visible@.take(self.visible@.len() as int) =~= self.visible@);
        assert(self.selected@ =~= old(self).selection_after_select(true));
    }

    /// Select all visible branches (requires force for unmerged)
    pub fn select_all(&mut self)
        requires
            old(self).wf(),
        ensures
            final(self).wf(),
            final(self).selected@ == old(self).selection_after_select(false),
            old(self).selection_safe() ==> final(self).selection_safe(),
            final(self).visible@ == old(self).visible@,
            final(self).cursor == old(self).cursor,
            final(self).same_session(old(self)),
            final(self).same_settings(old(self)),
            final(self).show_help == old(self).show_help,
    {
        let mut k: usize = 0;
        while k < self.visible.len()
            invariant
                k <= self.visible@.len(),
                self.visible@ == old(self).visible@,
                self.all_branches@ == old(self).all_branches@,
                self.force == old(self).force,
                self.selected@.len() == old(self).selected@.len(),
                self.wf(),
                forall|i: int|
                    0 <= i < self.selected@.len() ==> #[trigger] self.selected@[i] == (
                    old(self).selected@[i] || (lists_index(self.visible@.take(k as int), i)
                        && (self.all_branches@[i].is_merged || self.force))),
                self.cursor == old(self).cursor,
                self.same_session(old(self)),
                self.same_settings(old(self)),
                self.show_help == old(self).show_help,
            decreases self.visible@.len() - k,
        {
            let idx = self.visible[k];
            let ghost before = self.selected@;
            if self.all_branches[idx].is_merged || self.force {
                self.selected.set(idx, true);
            }
            proof {
                let prev = self.visible@.take(k as int);
                assert(self.visible@.take(k + 1) =~= prev.push(idx));
                assert forall|i: int| 0 <= i < self.selected@.len() implies #[trigger] self.selected@[i] == (
                    old(self).selected@[i] || (lists_index(self.visible@.take(k + 1), i)
                        && (self.all_branches@[i].is_merged || self.force))) by {
                    if i == idx as int {
                        assert(prev.push(idx)[prev.len() as int] == idx);
                        assert(lists_index(prev.push(idx), i));
                    } else {
                        assert(self.selected@[i] == before[i]);
                        if lists_index(prev.push(idx), i) {
                            let t = choose|t: int| 0 <= t < prev.push(idx).len() && prev.push(idx)[t] == i;
                            assert(t < prev.len());
                            assert(prev[t] == i);
                        }
                        if lists_index(prev, i) {
                            let t = choose|t: int| 0 <= t < prev.len() && prev[t] == i;
                            assert(prev.push(idx)[t] == i);
                        }
                    }
                }
            }
            k = k + 1;
        }
        assert(self.visible@.take(self.visible@.len() as int) =~= self.visible@);
        assert(self.selected@ =~= old(self).selection_after_select(false));
    }

    /// Deselect all branches
    pub fn deselect_all(&mut self)
        requires
            old(self).wf(),
        ensures
            final(self).wf(),
            final(self).selected@ == Seq::new(old(self).selected@.len(), |i: int| false),
            final(self).selection_safe(),
            final(self).visible@ == old(self).visible@,
            final(self).cursor == old(self).cursor,
            final(self).same_session(old(self)),
            final(self).same_settings(old(self)),
            final(self).show_help == old(self).show_help,
    {
        let mut k: usize = 0;
        while k < self.selected.len()
            invariant
                k <= self.selected@.len() == old(self).selected@.len(),
                forall|i: int| 0 <= i < k ==> !#[trigger] self.selected@[i],
                self.wf(),
                self.visible@ == old(self).visible@,
                self.cursor == old(self).cursor,
                self.same_session(old(self)),
                self.same_settings(old(self)),
                self.show_help == old(self).show_help,
            decreases self.selected@.len() - k,
        {
            self.selected.set(k, false);
            k = k + 1;
        }
        assert(self.selected@ =~= Seq::new(old(self).selected@.len(), |i: int| false));
    }

    // ── Query methods ───────────────────────────────────────────────

    /// Get all selected branches
    pub fn selected_branches(&self) -> (r: Vec<&Branch>)
        requires
            self.wf(),
        ensures
            r@.len() == selected_positions(self.selected@).len(),
            forall|t: int|
                0 <= t < r@.len() ==> *#[trigger] r@[t] == self.all_branches@[selected_positions(
                    self.selected@,
                )[t]],
    {
        let mut r: Vec<&Branch> = Vec::new();
        let mut i: usize = 0;
        while i < self.selected.len()
            invariant
                i <= self.selected@.len() == self.all_branches@.len(),
                r@.len() == selected_positions(self.selected@.take(i as int)).len(),
                forall|t: int|
                    0 <= t < r@.len() ==> *#[trigger] r@[t] == self.all_branches@[selected_positions(
                        self.selected@.take(i as int),
                    )[t]],
                forall|t: int|
                    0 <= t < selected_positions(self.selected@.take(i as int)).len() ==> 0 <= #[trigger] selected_positions(
                        self.selected@.take(i as int),
                    )[t] < i,
            decreases self.selected@.len() - i,
        {
            assert(self.selected@.take(i + 1).drop_last() =~= self.selected@.take(i as int));
            if self.selected[i] {
                r.push(&self.all_branches[i]);
            }
            i = i + 1;
        }
        assert(self.selected@.take(self.selected@.len() as int) =~= self.selected@);
        r
    }

    /// Count of selected branches
    pub fn selected_count(&self) -> (r: usize)
        ensures
            r == count_selected(self.selected@),
    {
        let mut c: usize = 0;
        let mut i: usize = 0;
        while i < self.selected.len()
            invariant
                i <= self.selected@.len(),
                c == count_selected(self.selected@.take(i as int)),
                c <= i,
            decreases self.selected@.len() - i,
        {
            assert(self.selected@.take(i + 1).drop_last() =~= self.selected@.take(i as int));
            if self.selected[i] {
                c = c + 1;
            }
            i = i + 1;
        }
        assert(self.selected@.take(self.selected@.len() as int) =~= self.selected@);
        c
    }

    /// Count of selected branches that are remote (`remote`) or local.
    fn count_selected_kind(&self, remote: bool) -> (r: usize)
        requires
            self.wf(),
        ensures
            r == count_selected_where(self.selected@, self.all_branches@, remote),
    {
        let mut c: usize = 0;
        let mut i: usize = 0;
        while i < self.selected.len()
            invariant
                i <= self.selected@.len() == self.all_branches@.len(),
                c == count_selected_where(self.selected@.take(i as int), self.all_branches@, remote),
                c <= i,
            decreases self.selected@.len() - i,
        {
            assert(self.selected@.take(i + 1).drop_last() =~= self.selected@.take(i as int));
            if self.selected[i] && self.all_branches[i].is_remote == remote {
                c = c + 1;
            }
            i = i + 1;
        }
        assert(self.selected@.take(self.selected@.len() as int) =~= self.selected@);
        c
    }

    /// Count of selected local branches
    pub fn selected_local_count(&self) -> (r: usize)
        requires
            self.wf(),
        ensures
            r == count_selected_where(self.selected@, self.all_branches@, false),
    {
        self.count_selected_kind(false)
    }

    /// Count of selected remote branches
    pub fn selected_remote_count(&self) -> (r: usize)
        requires
            self.wf(),
        ensures
            r == count_selected_where(self.selected@, self.all_branches@, true),
    {
        self.count_selected_kind(true)
    }

    /// Whether some selected branch is unmerged or remote.
    pub open spec fn needs_strict_confirm(&self) -> bool {
        exists|i: int|
            0 <= i < self.selected@.len() && #[trigger] self.selected@[i] && (
            !self.all_branches@[i].is_merged || self.all_branches@[i].is_remote)
    }

    /// Whether the current selection requires strict confirmation
    /// (any unmerged or remote branches selected)
    pub fn requires_strict_confirm(&self) -> (r: bool)
        requires
            self.wf(),
        ensures
            r == self.needs_strict_confirm(),
    {
        let mut i: usize = 0;
        while i < self.selected.len()
            invariant
                i <= self.selected@.len() == self.all_branches@.len(),
                forall|k: int|
                    0 <= k < i ==> !(#[trigger] self.selected@[k] && (!self.all_branches@[k].is_merged
                        || self.all_branches@[k].is_remote)),
            decreases self.selected@.len() - i,
        {
            if self.selected[i] && (!self.all_branches[i].is_merged || self.all_branches[i].is_remote) {
                return true;
            }
            i = i + 1;
        }
        false
    }

    // ── Filter methods ──────────────────────────────────────────────

    /// Cycle to the next sort order and re-sort
    pub fn cycle_sort(&mut self)
        requires
            old(self).wf(),
        ensures
            final(self).wf(),
            final(self).sort_order == old(self).sort_order.spec_next(),
            stably_sorted(final(self).visible@, old(self).visible@, old(self).all_branches@, final(self).sort_order),
            final(self).cursor == old(self).cursor,
            final(self).same_session(old(self)),
            final(self).filter_merged_only == old(self).filter_merged_only,
            final(self).filter_local_only == old(self).filter_local_only,
            final(self).filter_remote_only == old(self).filter_remote_only,
            final(self).search_query@ == old(self).search_query@,
            final(self).selected@ == old(self).selected@,
            final(self).show_help == old(self).show_help,
    {
        self.sort_order = self.sort_order.next();
        self.sort_visible();
    }

    /// Toggle the merged-only filter
    pub fn toggle_merged_filter(&mut self)
        requires
            old(self).wf(),
        ensures
            final(self).wf(),
            final(self).filter_merged_only == !old(self).filter_merged_only,
            final(self).filter_local_only == old(self).filter_local_only,
            final(self).filter_remote_only == old(self).filter_remote_only,
            final(self).sort_order == old(self).sort_order,
            final(self).search_query@ == old(self).search_query@,
            final(self).view_refreshed(old(self).cursor),
            final(self).same_session(old(self)),
            final(self).selected@ == old(self).selected@,
            final(self).show_help == old(self).show_help,
    {
        self.filter_merged_only = !self.filter_merged_only;
        self.update_visible();
    }

    /// Toggle the local-only filter (clears remote filter)
    pub fn toggle_local_filter(&mut self)
        requires
            old(self).wf(),
        ensures
            final(self).wf(),
            final(self).filter_local_only == !old(self).filter_local_only,
            final(self).filter_remote_only == (if final(self).filter_local_only {
                false
            } else {
                old(self).filter_remote_only
            }),
            final(self).filter_merged_only == old(self).filter_merged_only,
            final(self).sort_order == old(self).sort_order,
            final(self).search_query@ == old(self).search_query@,
            final(self).view_refreshed(old(self).cursor),
            final(self).same_session(old(self)),
            final(self).selected@ == old(self).selected@,
            final(self).show_help == old(self).show_help,
    {
        self.filter_local_only = !self.filter_local_only;
        if self.filter_local_only {
            self.filter_remote_only = false;
        }
        self.update_visible();
    }

    /// Toggle the remote-only filter (clears local filter)
    pub fn toggle_remote_filter(&mut self)
        requires
            old(self).wf(),
        ensures
            final(self).wf(),
            final(self).filter_remote_only == !old(self).filter_remote_only,
            final(self).filter_local_only == (if final(self).filter_remote_only {
                false
            } else {
                old(self).filter_local_only
            }),
            final(self).filter_merged_only == old(self).filter_merged_only,
            final(self).sort_order == old(self).sort_order,
            final(self).search_query@ == old(self).search_query@,
            final(self).view_refreshed(old(self).cursor),
            final(self).same_session(old(self)),
            final(self).selected@ == old(self).selected@,
            final(self).show_help == old(self).show_help,
    {
        self.filter_remote_only = !self.filter_remote_only;
        if self.filter_remote_only {
            self.filter_local_only = false;
        }
        self.update_visible();
    }

    // ── Help ────────────────────────────────────────────────────────

    /// Toggle the help overlay
    pub fn toggle_help(&mut self)
        ensures
            final(self).show_help == !old(self).show_help,
            final(self).visible@ == old(self).visible@,
            final(self).cursor == old(self).cursor,
            final(self).same_session(old(self)),
            final(self).same_settings(old(self)),
            final(self).selected@ == old(self).selected@,
    {
        self.show_help = !self.show_help;
    }
}

} // verus!

verus! {

impl App {
    /// The cursor points into the visible list, or is 0 when the list is empty.
    pub open spec fn cursor_in_range(&self) -> bool {
        if self.visible@.len() == 0 {
            self.cursor == 0
        } else {
            self.cursor < self.visible@.len()
        }
    }
}

proof fn lemma_shown_indices_members(bs: Seq<Branch>, f: BranchFilter, q: Seq<char>, k: int, i: int)
    requires
        0 <= k <= bs.len() <= usize::MAX,
    ensures
        lists_index(shown_indices(bs, f, q, k), i) <==> (0 <= i < k && shown(bs[i], f, q)),
        forall|t: int|
            0 <= t < shown_indices(bs, f, q, k).len() ==> #[trigger] shown_indices(bs, f, q, k)[t] < k,
    decreases k,
{
    if k > 0 {
        lemma_shown_indices_members(bs, f, q, k - 1, i);
        let prev = shown_indices(bs, f, q, k - 1);
        if shown(bs[k - 1], f, q) {
            let cur = prev.push((k - 1) as usize);
            if lists_index(prev, i) {
                let t = choose|t: int| 0 <= t < prev.len() && prev[t] == i;
                assert(cur[t] == i);
            }
            if i == k - 1 {
                assert(cur[prev.len() as int] == i);
            }
            if lists_index(cur, i) {
                let t = choose|t: int| 0 <= t < cur.len() && cur[t] == i;
                if t < prev.len() {
                    assert(prev[t] == i);
                }
            }
        }
    }
}

/// The list shows exactly the branches that pass the filter toggles and
/// the search: after a refresh, every visible index names such a branch,
/// and every such branch is visible.
pub proof fn lemma_visible_is_shown(app: &App, prev_cursor: usize)
    requires
        app.wf(),
        app.view_refreshed(prev_cursor),
    ensures
        forall|k: int|
            0 <= k < app.visible@.len() ==> #[trigger] shown(
                app.all_branches@[app.visible@[k] as int],
                app.current_filter(),
                app.search_query@,
            ),
        forall|i: int|
            0 <= i < app.all_branches@.len() && shown(
                app.all_branches@[i],
                app.current_filter(),
                app.search_query@,
            ) ==> lists_index(app.visible@, i),
{
    broadcast use vstd::seq_lib::to_multiset_contains;

    let bs = app.all_branches@;
    let f = app.current_filter();
    let q = app.search_query@;
    let cands = app.candidates();
    assert forall|k: int| 0 <= k < app.visible@.len() implies #[trigger] shown(
        bs[app.visible@[k] as int],
        f,
        q,
    ) by {
        let i = app.visible@[k];
        assert(app.visible@.to_multiset().count(i) > 0);
        assert(cands.contains(i));
        let t = choose|t: int| 0 <= t < cands.len() && cands[t] == i;
        assert(lists_index(cands, i as int));
        lemma_shown_indices_members(bs, f, q, bs.len() as int, i as int);
    }
    assert forall|i: int| 0 <= i < bs.len() && shown(bs[i], f, q) implies lists_index(
        app.visible@,
        i,
    ) by {
        lemma_shown_indices_members(bs, f, q, bs.len() as int, i);
        let t = choose|t: int| 0 <= t < cands.len() && cands[t] == i;
        assert(cands.to_multiset().count(cands[t]) > 0);
        assert(app.visible@.contains(cands[t]));
        let u = choose|u: int| 0 <= u < app.visible@.len() && app.visible@[u] == cands[t];
        assert(app.visible@[u] == i);
    }
}

/// Merged branches come first in the list, and within each group the
/// order is oldest first (`Age`, `Status`) or by name (`Name`).
pub proof fn lemma_visible_grouped(app: &App, prev_cursor: usize, a: int, b: int)
    requires
        app.view_refreshed(prev_cursor),
        0 <= a < b < app.visible@.len(),
    ensures
        !app.all_branches@[app.visible@[a] as int].is_merged ==> !app.all_branches@[app.visible@[b] as int].is_merged,
        app.sort_order != SortOrder::Name && app.all_branches@[app.visible@[a] as int].is_merged
            == app.all_branches@[app.visible@[b] as int].is_merged ==> app.all_branches@[app.visible@[a] as int].age_days
            >= app.all_branches@[app.visible@[b] as int].age_days,
{
    assert(crate::order::index_compare(app.all_branches@, app.sort_order, app.visible@[a], app.visible@[b]) <= 0);
}

/// A refresh leaves the cursor inside the visible list (or at 0 when it is
/// empty).
pub proof fn lemma_refresh_cursor_in_range(app: &App, prev_cursor: usize)
    requires
        app.view_refreshed(prev_cursor),
    ensures
        app.cursor_in_range(),
{
}

/// Moving the cursor keeps it inside the visible list.
pub proof fn lemma_cursor_moves_stay_in_range(app: &App)
    requires
        app.cursor_in_range(),
    ensures
        app.visible@.len() == 0 ==> app.cursor_after_up() == 0 && app.cursor_after_down() == 0,
        app.visible@.len() > 0 ==> app.cursor_after_up() < app.visible@.len()
            && app.cursor_after_down() < app.visible@.len(),
{
}

/// Cycling the sort order three times comes back to where it started.
pub proof fn lemma_sort_cycle(o: SortOrder)
    ensures
        o.spec_next().spec_next().spec_next() == o,
        o.spec_next() != o,
{
}

proof fn lemma_count_split_prefix(sel: Seq<bool>, bs: Seq<Branch>)
    ensures
        count_selected(sel) == count_selected_where(sel, bs, false) + count_selected_where(sel, bs, true),
    decreases sel.len(),
{
    if sel.len() > 0 {
        lemma_count_split_prefix(sel.drop_last(), bs);
    }
}

/// Every selected branch is local or remote: the selected count is the
/// local count plus the remote count.
pub proof fn lemma_selected_count_split(app: &App)
    ensures
        count_selected(app.selected@) == count_selected_where(app.selected@, app.all_branches@, false)
            + count_selected_where(app.selected@, app.all_branches@, true),
{
    lemma_count_split_prefix(app.selected@, app.all_branches@);
}

/// A selection of nothing counts zero.
pub proof fn lemma_nothing_selected(n: nat)
    ensures
        count_selected(Seq::new(n, |i: int| false)) == 0,
    decreases n,
{
    if n > 0 {
        assert(Seq::new(n, |i: int| false).drop_last() =~= Seq::new((n - 1) as nat, |i: int| false));
        lemma_nothing_selected((n - 1) as nat);
    }
}

/// When strict confirmation is not needed, every selected branch is a
/// merged local branch.
pub proof fn lemma_lenient_confirm_means_safe(app: &App)
    requires
        !app.needs_strict_confirm(),
    ensures
        forall|i: int|
            0 <= i < app.selected@.len() && #[trigger] app.selected@[i] ==> app.all_branches@[i].is_merged
                && !app.all_branches@[i].is_remote,
{
}

} // verus!

verus! {

/// The toggles and the search decide what the list shows. With remote-only
/// set every visible branch is remote, with local-only set every one is
/// local, with merged-only set every one is merged, and with a search every
/// visible name contains it, ignoring case. Conversely every branch (of
/// non-negative age) that meets all the toggles that are set and the search
/// is visible.
pub proof fn lemma_toggles_decide_visible(app: &App, prev_cursor: usize)
    requires
        app.wf(),
        app.view_refreshed(prev_cursor),
    ensures
        forall|k: int|
            0 <= k < app.visible@.len() ==> {
                let b = #[trigger] app.all_branches@[app.visible@[k] as int];
                &&& app.filter_remote_only ==> b.is_remote
                &&& app.filter_local_only ==> !b.is_remote
                &&& app.filter_merged_only ==> b.is_merged
                &&& app.search_query@.len() > 0 ==> contains_seq(
                    lowercase(b.name@),
                    lowercase(app.search_query@),
                )
            },
        forall|i: int|
            0 <= i < app.all_branches@.len() && {
                let b = #[trigger] app.all_branches@[i];
                &&& b.age_days >= 0
                &&& app.filter_remote_only ==> b.is_remote
                &&& app.filter_local_only ==> !b.is_remote
                &&& app.filter_merged_only ==> b.is_merged
                &&& app.search_query@.len() > 0 ==> contains_seq(
                    lowercase(b.name@),
                    lowercase(app.search_query@),
                )
            } ==> lists_index(app.visible@, i),
{
    lemma_visible_is_shown(app, prev_cursor);
    assert forall|k: int| 0 <= k < app.visible@.len() implies {
        let b = #[trigger] app.all_branches@[app.visible@[k] as int];
        &&& app.filter_remote_only ==> b.is_remote
        &&& app.filter_local_only ==> !b.is_remote
        &&& app.filter_merged_only ==> b.is_merged
        &&& app.search_query@.len() > 0 ==> contains_seq(lowercase(b.name@), lowercase(app.search_query@))
    } by {
        assert(shown(app.all_branches@[app.visible@[k] as int], app.current_filter(), app.search_query@));
    }
    assert forall|i: int|
        0 <= i < app.all_branches@.len() && {
            let b = #[trigger] app.all_branches@[i];
            &&& b.age_days >= 0
            &&& app.filter_remote_only ==> b.is_remote
            &&& app.filter_local_only ==> !b.is_remote
            &&& app.filter_merged_only ==> b.is_merged
            &&& app.search_query@.len() > 0 ==> contains_seq(lowercase(b.name@), lowercase(app.search_query@))
        } implies lists_index(app.visible@, i) by {
        assert(shown(app.all_branches@[i], app.current_filter(), app.search_query@));
    }
}

/// Selecting all merged branches (`a`) touches only the visible merged
/// branches: a hidden branch keeps its selection, nothing is deselected,
/// every visible merged branch ends up selected, and every newly selected
/// branch is merged, with or without `force`.
pub proof fn lemma_select_merged_only_visible_merged(app: &App)
    ensures
        app.selection_after_select(true).len() == app.selected@.len(),
        forall|i: int|
            0 <= i < app.selected@.len() && !lists_index(app.visible@, i) ==> #[trigger] app.selection_after_select(
                true,
            )[i] == app.selected@[i],
        forall|i: int|
            0 <= i < app.selected@.len() && app.selected@[i] ==> #[trigger] app.selection_after_select(true)[i],
        forall|i: int|
            0 <= i < app.selected@.len() && #[trigger] app.selection_after_select(true)[i] && !app.selected@[i]
                ==> app.all_branches@[i].is_merged,
        forall|k: int|
            0 <= k < app.visible@.len() && app.visible@[k] < app.selected@.len()
                && app.all_branches@[app.visible@[k] as int].is_merged ==> app.selection_after_select(true)[#[trigger] app.visible@[k] as int],
{
    assert forall|k: int|
        0 <= k < app.visible@.len() && app.visible@[k] < app.selected@.len()
            && app.all_branches@[app.visible@[k] as int].is_merged implies app.selection_after_select(true)[#[trigger] app.visible@[k] as int] by {
        assert(lists_index(app.visible@, app.visible@[k] as int));
    }
}

/// Selecting all branches (`A`) touches only visible branches: a hidden
/// branch keeps its selection, nothing is deselected, and every newly
/// selected branch is merged unless `force` is set; every visible branch
/// that is merged, or any visible one under `force`, ends up selected.
pub proof fn lemma_select_all_only_visible(app: &App)
    ensures
        app.selection_after_select(false).len() == app.selected@.len(),
        forall|i: int|
            0 <= i < app.selected@.len() && !lists_index(app.visible@, i) ==> #[trigger] app.selection_after_select(
                false,
            )[i] == app.selected@[i],
        forall|i: int|
            0 <= i < app.selected@.len() && app.selected@[i] ==> #[trigger] app.selection_after_select(false)[i],
        forall|i: int|
            0 <= i < app.selected@.len() && #[trigger] app.selection_after_select(false)[i] && !app.selected@[i]
                ==> app.all_branches@[i].is_merged || app.force,
        forall|k: int|
            0 <= k < app.visible@.len() && app.visible@[k] < app.selected@.len() && (
            app.all_branches@[app.visible@[k] as int].is_merged || app.force) ==> app.selection_after_select(
                false,
            )[#[trigger] app.visible@[k] as int],
{
    assert forall|k: int|
        0 <= k < app.visible@.len() && app.visible@[k] < app.selected@.len() && (
        app.all_branches@[app.visible@[k] as int].is_merged || app.force) implies app.selection_after_select(
            false,
        )[#[trigger] app.visible@[k] as int] by {
        assert(lists_index(app.visible@, app.visible@[k] as int));
    }
}

} // verus!
