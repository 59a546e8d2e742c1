//! What a key press does in each mode of the TUI, and the progress of the
//! deletions it starts.
use vstd::prelude::*;
use crate::branch::Branch;
use crate::order::stably_sorted;
use crate::text::{chars_eq, chars_of, push_char};
use crate::tui::{count_selected, lemma_select_all_only_visible, lemma_select_merged_only_visible_merged, lists_index, selected_positions, App, DeletionResult, Mode};
use crate::git::{delete_flag, origin_prefix, remote_branch_name, GitError};
use crate::text::has_prefix;

verus! {

/// A key press, as far as the TUI tells keys apart.
#[derive(Debug, Clone, Copy, PartialEq, Eq, Structural)]
pub enum KeyInput {
    /// A printable character
    Char(char),
    Up,
    Down,
    Enter,
    Esc,
    Backspace,
    /// Any other key
    Other,
}

/// What a key press asks of the event loop.
#[derive(Debug, Clone, Copy, PartialEq, Eq, Structural)]
pub enum KeyOutcome {
    /// Keep going
    Continue,
    /// Leave the TUI
    Quit,
    /// The deletion was confirmed: back up, then delete the pending branches
    StartDeletion,
}

/// A browse-mode command (the bindings the help overlay lists).
#[derive(Debug, Clone, Copy, PartialEq, Eq, Structural)]
pub enum Command {
    Quit,
    Down,
    Up,
    ToggleSelection,
    SelectMerged,
    SelectAll,
    DeselectAll,
    Delete,
    Search,
    CycleSort,
    ToggleMerged,
    ToggleLocal,
    ToggleRemote,
    ToggleHelp,
}

/// The command a key gives in browse mode: q/Esc quit, j/Down and k/Up
/// move, Space toggles, a selects merged, A selects all, n deselects all,
/// d deletes, / searches, s sorts, m/l/R toggle the filters, ? shows help.
pub open spec fn browse_binding(key: KeyInput) -> Option<Command> {
    match key {
        KeyInput::Char('q') | KeyInput::Esc => Some(Command::Quit),
        KeyInput::Char('j') | KeyInput::Down => Some(Command::Down),
        KeyInput::Char('k') | KeyInput::Up => Some(Command::Up),
        KeyInput::Char(' ') => Some(Command::ToggleSelection),
        KeyInput::Char('a') => Some(Command::SelectMerged),
        KeyInput::Char('A') => Some(Command::SelectAll),
        KeyInput::Char('n') => Some(Command::DeselectAll),
        KeyInput::Char('d') => Some(Command::Delete),
        KeyInput::Char('/') => Some(Command::Search),
        KeyInput::Char('s') => Some(Command::CycleSort),
        KeyInput::Char('m') => Some(Command::ToggleMerged),
        KeyInput::Char('l') => Some(Command::ToggleLocal),
        KeyInput::Char('R') => Some(Command::ToggleRemote),
        KeyInput::Char('?') => Some(Command::ToggleHelp),
        _ => None,
    }
}

/// The command a key gives in browse mode.
pub fn browse_command(key: KeyInput) -> (c: Option<Command>)
    ensures
        c == browse_binding(key),
{
    match key {
        KeyInput::Char('q') | KeyInput::Esc => Some(Command::Quit),
        KeyInput::Char('j') | KeyInput::Down => Some(Command::Down),
        KeyInput::Char('k') | KeyInput::Up => Some(Command::Up),
        KeyInput::Char(' ') => Some(Command::ToggleSelection),
        KeyInput::Char('a') => Some(Command::SelectMerged),
        KeyInput::Char('A') => Some(Command::SelectAll),
        KeyInput::Char('n') => Some(Command::DeselectAll),
        KeyInput::Char('d') => Some(Command::Delete),
        KeyInput::Char('/') => Some(Command::Search),
        KeyInput::Char('s') => Some(Command::CycleSort),
        KeyInput::Char('m') => Some(Command::ToggleMerged),
        KeyInput::Char('l') => Some(Command::ToggleLocal),
        KeyInput::Char('R') => Some(Command::ToggleRemote),
        KeyInput::Char('?') => Some(Command::ToggleHelp),
        _ => None,
    }
}

/// The sort order and the three filter toggles are the same in `new` and `old`.
pub open spec fn same_filters(new: &App, old: &App) -> bool {
    &&& new.sort_order == old.sort_order
    &&& new.filter_merged_only == old.filter_merged_only
    &&& new.filter_local_only == old.filter_local_only
    &&& new.filter_remote_only == old.filter_remote_only
}

/// What browse-mode command `cmd` does to the state `old`, giving `new`.
pub open spec fn command_effect(old: &App, new: &App, cmd: Command) -> bool {
    match cmd {
        Command::Down => new.cursor == old.cursor_after_down() && new.visible@
            == old.visible@ && new.selected@ == old.selected@
            && new.same_session(old) && new.same_settings(old)
            && new.show_help == old.show_help,
        Command::Up => new.cursor == old.cursor_after_up() && new.visible@
            == old.visible@ && new.selected@ == old.selected@
            && new.same_session(old) && new.same_settings(old)
            && new.show_help == old.show_help,
        Command::ToggleSelection => new.selected@ == old.selection_after_toggle()
            && new.cursor == old.cursor && new.visible@ == old.visible@
            && new.same_session(old) && new.same_settings(old)
            && new.show_help == old.show_help,
        Command::SelectMerged => new.selected@ == old.selection_after_select(true)
            && new.cursor == old.cursor && new.visible@ == old.visible@
            && new.same_session(old) && new.same_settings(old)
            && new.show_help == old.show_help,
        Command::SelectAll => new.selected@ == old.selection_after_select(false)
            && new.cursor == old.cursor && new.visible@ == old.visible@
            && new.same_session(old) && new.same_settings(old)
            && new.show_help == old.show_help,
        Command::DeselectAll => new.selected@ == Seq::new(
            old.selected@.len(),
            |i: int| false,
        ) && new.cursor == old.cursor && new.visible@ == old.visible@
            && new.same_session(old) && new.same_settings(old)
            && new.show_help == old.show_help,
        Command::Delete => (if count_selected(old.selected@) > 0 {
            new.mode == Mode::Confirm && new.confirm_input@ == Seq::<char>::empty()
        } else {
            new.mode == old.mode && new.confirm_input@ == old.confirm_input@
        }) && new.same_list(old) && new.same_settings(old) && new.same_record(old)
            && new.show_help == old.show_help,
        Command::Search => new.mode == Mode::Filter && new.confirm_input@ == old.confirm_input@
            && new.same_list(old) && new.same_settings(old) && new.same_record(old)
            && new.show_help == old.show_help,
        Command::CycleSort => new.sort_order == old.sort_order.spec_next()
            && stably_sorted(
            new.visible@,
            old.visible@,
            old.all_branches@,
            new.sort_order,
        ) && new.cursor == old.cursor && new.selected@ == old.selected@
            && new.filter_merged_only == old.filter_merged_only
            && new.filter_local_only == old.filter_local_only
            && new.filter_remote_only == old.filter_remote_only
            && new.search_query@ == old.search_query@
            && new.same_session(old) && new.show_help == old.show_help,
        Command::ToggleMerged => new.filter_merged_only == !old.filter_merged_only
            && new.filter_local_only == old.filter_local_only
            && new.filter_remote_only == old.filter_remote_only
            && new.sort_order == old.sort_order && new.search_query@ == old.search_query@
            && new.view_refreshed(old.cursor) && new.selected@
            == old.selected@ && new.same_session(old) && new.show_help == old.show_help,
        Command::ToggleLocal => new.filter_local_only == !old.filter_local_only
            && new.filter_remote_only == (if new.filter_local_only {
            false
        } else {
            old.filter_remote_only
        }) && new.filter_merged_only == old.filter_merged_only
            && new.sort_order == old.sort_order && new.search_query@ == old.search_query@
            && new.view_refreshed(old.cursor) && new.selected@
            == old.selected@ && new.same_session(old) && new.show_help == old.show_help,
        Command::ToggleRemote => new.filter_remote_only == !old.filter_remote_only
            && new.filter_local_only == (if new.filter_remote_only {
            false
        } else {
            old.filter_local_only
        }) && new.filter_merged_only == old.filter_merged_only
            && new.sort_order == old.sort_order && new.search_query@ == old.search_query@
            && new.view_refreshed(old.cursor) && new.selected@
            == old.selected@ && new.same_session(old) && new.show_help == old.show_help,
        Command::ToggleHelp => new.show_help == !old.show_help && new.same_list(
            old,
        ) && new.same_session(old) && new.same_settings(old),
        Command::Quit => true,
    }
}

/// Removes the last character of `s`, if any (`String::pop`).
#[verifier::external_body]
fn pop_char(s: &mut String)
    ensures
        final(s)@ == if old(s)@.len() > 0 {
            old(s)@.drop_last()
        } else {
            old(s)@
        },
{
    s.pop();
}


impl App {
    /// The cursor, visible list and selection are the same in `self` and `o`.
    pub open spec fn same_list(&self, o: &App) -> bool {
        &&& self.cursor == o.cursor
        &&& self.visible@ == o.visible@
        &&& self.selected@ == o.selected@
    }

    /// Carry out a browse-mode command other than quitting.
    pub fn run_command(&mut self, cmd: Command)
        requires
            old(self).wf(),
            cmd != Command::Quit,
        ensures
            final(self).wf(),
            old(self).selection_safe() ==> final(self).selection_safe(),
            final(self).all_branches@ == old(self).all_branches@,
            final(self).force == old(self).force,
            command_effect(old(self), final(self), cmd),
    {
        match cmd {
            Command::Down => self.cursor_down(),
            Command::Up => self.cursor_up(),
            Command::ToggleSelection => self.toggle_selection(),
            Command::SelectMerged => self.select_all_merged(),
            Command::SelectAll => self.select_all(),
            Command::DeselectAll => self.deselect_all(),
            Command::Delete => {
                if self.selected_count() > 0 {
                    self.mode = Mode::Confirm;
                    self.confirm_input = String::new();
                }
            },
            Command::Search => {
                self.mode = Mode::Filter;
            },
            Command::CycleSort => self.cycle_sort(),
            Command::ToggleMerged => self.toggle_merged_filter(),
            Command::ToggleLocal => self.toggle_local_filter(),
            Command::ToggleRemote => self.toggle_remote_filter(),
            Command::ToggleHelp => self.toggle_help(),
            Command::Quit => {},
        }
    }
}

} // verus!

verus! {


/// `"yes"`.
pub open spec fn yes_text() -> Seq<char> {
    seq!['y', 'e', 's']
}

impl App {
    /// Whether `pending` holds the selected branches, in order.
    pub open spec fn pending_is_selection(&self, pending: Seq<Branch>) -> bool {
        let pos = selected_positions(self.selected@);
        &&& pending.len() == pos.len()
        &&& forall|t: int| 0 <= t < pending.len() ==> #[trigger] pending[t] == self.all_branches@[pos[t]]
    }

    /// The deletion has started: executing, with the selected branches
    /// pending and no results yet.
    pub open spec fn deletion_started(&self, old: &App) -> bool {
        &&& self.mode == Mode::Executing
        &&& old.pending_is_selection(self.pending_deletions@)
        &&& self.deletion_results@ == Seq::<DeletionResult>::empty()
        &&& !self.execution_done
        &&& self.same_list(old)
        &&& self.same_settings(old)
        &&& self.all_branches@ == old.all_branches@
        &&& self.force == old.force
        &&& self.show_help == old.show_help
        &&& self.confirm_input@ == old.confirm_input@
        &&& self.default_branch@ == old.default_branch@
        &&& self.backup_path == old.backup_path
        &&& self.scroll_offset == old.scroll_offset
    }

    /// Switch to executing: queue the selected branches for deletion.
    fn start_deletion(&mut self)
        requires
            old(self).wf(),
        ensures
            final(self).wf(),
            final(self).deletion_started(old(self)),
    {
        let mut pending: Vec<Branch> = Vec::new();
        let mut i: usize = 0;
        while i < self.selected.len()
            invariant
                self.wf(),
                i <= self.selected@.len(),
                pending@.len() == selected_positions(self.selected@.take(i as int)).len(),
                forall|t: int|
                    0 <= t < pending@.len() ==> #[trigger] pending@[t] == self.all_branches@[selected_positions(
                        self.selected@.take(i as int),
                    )[t]],
            decreases self.selected@.len() - i,
        {
            assert(self.selected@.take(i + 1).drop_last() =~= self.selected@.take(i as int));
            if self.selected[i] {
                pending.push(self.all_branches[i].clone());
            }
            i = i + 1;
        }
        assert(self.selected@.take(self.selected@.len() as int) =~= self.selected@);
        self.pending_deletions = pending;
        self.deletion_results = Vec::new();
        self.execution_done = false;
        self.mode = Mode::Executing;
    }
}

/// What a key does in filter mode: Enter applies the search, Esc clears it,
/// Backspace and characters edit it (the list follows each edit); nothing
/// else changes.
pub open spec fn filter_key_effect(old: &App, new: &App, key: KeyInput) -> bool {
    let rest = same_filters(new, old) && new.same_record(old) && new.confirm_input@
        == old.confirm_input@ && new.show_help == old.show_help;
    match key {
        KeyInput::Enter => new.mode == Mode::Browse && new.same_list(old) && new.search_query@
            == old.search_query@ && rest,
        KeyInput::Esc => new.mode == Mode::Browse && new.search_query@ == Seq::<char>::empty()
            && new.view_refreshed(old.cursor) && new.selected@ == old.selected@ && rest,
        KeyInput::Backspace => new.mode == old.mode && new.search_query@ == (if old.search_query@.len()
            > 0 {
            old.search_query@.drop_last()
        } else {
            old.search_query@
        }) && new.view_refreshed(old.cursor) && new.selected@ == old.selected@ && rest,
        KeyInput::Char(c) => new.mode == old.mode && new.search_query@ == old.search_query@.push(c)
            && new.view_refreshed(old.cursor) && new.selected@ == old.selected@ && rest,
        _ => *new == *old,
    }
}

/// What a key does in confirm mode: Esc goes back; with an unmerged or
/// remote branch selected, the user must type `yes` and press Enter;
/// otherwise Enter or `y` confirms.
pub open spec fn confirm_key_effect(old: &App, new: &App, key: KeyInput, out: KeyOutcome) -> bool {
    let rest = new.same_list(old) && new.same_settings(old) && new.same_record(old) && new.show_help
        == old.show_help;
    if key == KeyInput::Esc {
        out == KeyOutcome::Continue && new.mode == Mode::Browse && new.confirm_input@ == Seq::<char>::empty()
            && rest
    } else if old.needs_strict_confirm() {
        match key {
            KeyInput::Char(c) => out == KeyOutcome::Continue && new.confirm_input@ == old.confirm_input@.push(c)
                && new.mode == old.mode && rest,
            KeyInput::Backspace => out == KeyOutcome::Continue && new.confirm_input@ == (
            if old.confirm_input@.len() > 0 {
                old.confirm_input@.drop_last()
            } else {
                old.confirm_input@
            }) && new.mode == old.mode && rest,
            KeyInput::Enter => if old.confirm_input@ == yes_text() {
                out == KeyOutcome::StartDeletion && new.deletion_started(old)
            } else {
                out == KeyOutcome::Continue && *new == *old
            },
            _ => out == KeyOutcome::Continue && *new == *old,
        }
    } else if key == KeyInput::Enter || key == KeyInput::Char('y') {
        out == KeyOutcome::StartDeletion && new.deletion_started(old)
    } else {
        out == KeyOutcome::Continue && *new == *old
    }
}

/// What a key does: with help shown, any key hides it; in browse mode the
/// key's command runs (q/Esc quit); filter and confirm mode edit their
/// text; executing ignores keys; on the summary any key quits.
pub open spec fn key_effect(old: &App, new: &App, key: KeyInput, out: KeyOutcome) -> bool {
    if old.show_help {
        out == KeyOutcome::Continue && !new.show_help && new.same_list(old) && new.same_settings(old)
            && new.same_session(old)
    } else {
        match old.mode {
            Mode::Browse => match browse_binding(key) {
                None => out == KeyOutcome::Continue && *new == *old,
                Some(Command::Quit) => out == KeyOutcome::Quit && *new == *old,
                Some(c) => out == KeyOutcome::Continue && command_effect(old, new, c),
            },
            Mode::Filter => out == KeyOutcome::Continue && filter_key_effect(old, new, key),
            Mode::Confirm => confirm_key_effect(old, new, key, out),
            Mode::Executing => out == KeyOutcome::Continue && *new == *old,
            Mode::Summary => out == KeyOutcome::Quit && *new == *old,
        }
    }
}

impl App {
    /// Handle one key press.
    pub fn handle_key(&mut self, key: KeyInput) -> (out: KeyOutcome)
        requires
            old(self).wf(),
        ensures
            final(self).wf(),
            old(self).selection_safe() ==> final(self).selection_safe(),
            final(self).all_branches@ == old(self).all_branches@,
            key_effect(old(self), final(self), key, out),
    {
        if self.show_help {
            self.show_help = false;
            return KeyOutcome::Continue;
        }
        match self.mode {
            Mode::Browse => match browse_command(key) {
                None => KeyOutcome::Continue,
                Some(Command::Quit) => KeyOutcome::Quit,
                Some(c) => {
                    self.run_command(c);
                    KeyOutcome::Continue
                },
            },
            Mode::Filter => {
                match key {
                    KeyInput::Enter => {
                        self.mode = Mode::Browse;
                    },
                    KeyInput::Esc => {
                        self.search_query = String::new();
                        self.update_visible();
                        self.mode = Mode::Browse;
                    },
                    KeyInput::Backspace => {
                        pop_char(&mut self.search_query);
                        self.update_visible();
                    },
                    KeyInput::Char(c) => {
                        push_char(&mut self.search_query, c);
                        self.update_visible();
                    },
                    _ => {},
                }
                KeyOutcome::Continue
            },
            Mode::Confirm => {
                if key == KeyInput::Esc {
                    self.confirm_input = String::new();
                    self.mode = Mode::Browse;
                    return KeyOutcome::Continue;
                }
                if self.requires_strict_confirm() {
                    match key {
                        KeyInput::Char(c) => {
                            push_char(&mut self.confirm_input, c);
                            KeyOutcome::Continue
                        },
                        KeyInput::Backspace => {
                            pop_char(&mut self.confirm_input);
                            KeyOutcome::Continue
                        },
                        KeyInput::Enter => {
                            let typed = chars_of(self.confirm_input.as_str());
                            let yes = vec!['y', 'e', 's'];
                            assert(yes@ =~= yes_text());
                            if chars_eq(&typed, &yes) {
                                self.start_deletion();
                                KeyOutcome::StartDeletion
                            } else {
                                KeyOutcome::Continue
                            }
                        },
                        _ => KeyOutcome::Continue,
                    }
                } else if key == KeyInput::Enter || key == KeyInput::Char('y') {
                    self.start_deletion();
                    KeyOutcome::StartDeletion
                } else {
                    KeyOutcome::Continue
                }
            },
            Mode::Executing => KeyOutcome::Continue,
            Mode::Summary => KeyOutcome::Quit,
        }
    }

    /// The next branch to delete, if any.
    pub fn next_pending(&self) -> (r: Option<&Branch>)
        ensures
            r == (if self.pending_deletions@.len() > 0 {
                Some(&self.pending_deletions@[0])
            } else {
                None
            }),
    {
        if self.pending_deletions.len() > 0 {
            Some(&self.pending_deletions[0])
        } else {
            None
        }
    }

    /// Record the outcome of deleting the next pending branch; after the
    /// last one, execution is done and the summary shows.
    pub fn record_deletion(&mut self, result: DeletionResult)
        requires
            old(self).pending_deletions@.len() > 0,
        ensures
            final(self).pending_deletions@ == old(self).pending_deletions@.drop_first(),
            final(self).deletion_results@ == old(self).deletion_results@.push(result),
            final(self).pending_deletions@.len() == 0 ==> final(self).execution_done && final(self).mode
                == Mode::Summary,
            final(self).pending_deletions@.len() > 0 ==> final(self).execution_done == old(self).execution_done
                && final(self).mode == old(self).mode,
            final(self).same_list(old(self)),
            final(self).same_settings(old(self)),
            final(self).all_branches@ == old(self).all_branches@,
            final(self).force == old(self).force,
            final(self).show_help == old(self).show_help,
            final(self).confirm_input@ == old(self).confirm_input@,
            final(self).default_branch@ == old(self).default_branch@,
            final(self).backup_path == old(self).backup_path,
            final(self).scroll_offset == old(self).scroll_offset,
    {
        self.deletion_results.push(result);
        self.pending_deletions.remove(0);
        assert(self.pending_deletions@ =~= old(self).pending_deletions@.drop_first());
        if self.pending_deletions.len() == 0 {
            self.execution_done = true;
            self.mode = Mode::Summary;
        }
    }
}

} // verus!

verus! {

/// The git command that deletes a branch.
#[derive(Debug)]
pub enum DeleteRequest {
    /// `git branch <flag> <name>`
    Local { name: String, flag: &'static str },
    /// `git push origin --delete <name>`
    Remote { name: String },
}

/// How to delete `b`: a remote branch by its name without `origin/`, a
/// local one with `-D` under `force`, else `-d`.
pub fn delete_request(b: &Branch, force: bool) -> (r: DeleteRequest)
    ensures
        b.is_remote ==> (r matches DeleteRequest::Remote { name } && (if has_prefix(b.name@, origin_prefix()) {
            name@ == b.name@.skip(7)
        } else {
            name@ == b.name@
        })),
        !b.is_remote ==> (r matches DeleteRequest::Local { name, flag } && name@ == b.name@ && flag@ == (if force {
            "-D"@
        } else {
            "-d"@
        })),
{
    if b.is_remote {
        DeleteRequest::Remote { name: remote_branch_name(b.name.as_str()) }
    } else {
        DeleteRequest::Local { name: b.name.clone(), flag: delete_flag(force) }
    }
}

/// The result to record for deleting `branch` with outcome `outcome`.
pub fn deletion_result(branch: Branch, outcome: Result<(), GitError>) -> (r: DeletionResult)
    ensures
        r.branch == branch,
        r.success == (outcome is Ok),
        match outcome {
            Ok(()) => r.error is None,
            Err(e) => r.error matches Some(m) && m@ == e.text(),
        },
{
    match outcome {
        Ok(()) => DeletionResult { branch, success: true, error: None },
        Err(e) => DeletionResult { branch, success: false, error: Some(e.message()) },
    }
}

} // verus!

verus! {

/// In browse mode (help hidden) the key `a` selects merged branches only:
/// the list goes on, every branch it newly selects is merged even under
/// `force`, every visible merged branch ends up selected, a hidden branch
/// keeps its selection, and nothing is deselected.
pub proof fn lemma_key_a_selects_visible_merged(old: &App, new: &App, out: KeyOutcome)
    requires
        old.mode == Mode::Browse,
        !old.show_help,
        key_effect(old, new, KeyInput::Char('a'), out),
    ensures
        out == KeyOutcome::Continue,
        new.selected@.len() == old.selected@.len(),
        forall|i: int|
            0 <= i < old.selected@.len() && #[trigger] new.selected@[i] && !old.selected@[i]
                ==> old.all_branches@[i].is_merged,
        forall|i: int| 0 <= i < old.selected@.len() && old.selected@[i] ==> #[trigger] new.selected@[i],
        forall|i: int|
            0 <= i < old.selected@.len() && !lists_index(old.visible@, i) ==> #[trigger] new.selected@[i]
                == old.selected@[i],
        forall|k: int|
            0 <= k < old.visible@.len() && old.visible@[k] < old.selected@.len()
                && old.all_branches@[old.visible@[k] as int].is_merged ==> new.selected@[#[trigger] old.visible@[k] as int],
{
    assert(browse_binding(KeyInput::Char('a')) == Some(Command::SelectMerged));
    lemma_select_merged_only_visible_merged(old);
}

/// In browse mode (help hidden) the key `A` selects visible branches only,
/// and an unmerged one only under `force`: every branch it newly selects is
/// visible and merged (or `force` is set), a hidden branch keeps its
/// selection, and nothing is deselected.
pub proof fn lemma_key_shift_a_selects_visible(old: &App, new: &App, out: KeyOutcome)
    requires
        old.mode == Mode::Browse,
        !old.show_help,
        key_effect(old, new, KeyInput::Char('A'), out),
    ensures
        out == KeyOutcome::Continue,
        new.selected@.len() == old.selected@.len(),
        forall|i: int|
            0 <= i < old.selected@.len() && #[trigger] new.selected@[i] && !old.selected@[i]
                ==> lists_index(old.visible@, i) && (old.all_branches@[i].is_merged || old.force),
        forall|i: int| 0 <= i < old.selected@.len() && old.selected@[i] ==> #[trigger] new.selected@[i],
{
    assert(browse_binding(KeyInput::Char('A')) == Some(Command::SelectAll));
    lemma_select_all_only_visible(old);
}

} // verus!
