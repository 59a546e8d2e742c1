use deadbranch::branch::{Branch, BranchFilter};
use deadbranch::git::GitError;
use deadbranch::session::{
    browse_command, delete_request, deletion_result, Command, DeleteRequest, KeyInput, KeyOutcome,
};
use deadbranch::tui::{App, Mode};

fn branch(name: &str, age_days: i64, is_merged: bool, is_remote: bool) -> Branch {
    Branch {
        name: name.to_string(),
        age_days,
        is_merged,
        is_remote,
        last_commit_sha: "abc1234567".to_string(),
        last_commit_date: 1_700_000_000,
        last_commit_author: "Ann".to_string(),
    }
}

fn sample() -> Vec<Branch> {
    vec![
        branch("feature/old-merged", 60, true, false),
        branch("feature/old-unmerged", 45, false, false),
        branch("origin/feature/remote-merged", 30, true, true),
        branch("feature/new-merged", 10, true, false),
        branch("feature/new-unmerged", 5, false, false),
    ]
}

fn local_merged_only() -> Vec<Branch> {
    vec![branch("a", 3, true, false), branch("b", 2, true, false)]
}

fn app(branches: Vec<Branch>, force: bool) -> App {
    App::new(branches, &BranchFilter::default(), "main", force)
}

fn press(app: &mut App, keys: &str) {
    for c in keys.chars() {
        assert_eq!(app.handle_key(KeyInput::Char(c)), KeyOutcome::Continue);
    }
}

#[test]
fn browse_bindings() {
    assert_eq!(browse_command(KeyInput::Char('q')), Some(Command::Quit));
    assert_eq!(browse_command(KeyInput::Esc), Some(Command::Quit));
    assert_eq!(browse_command(KeyInput::Down), Some(Command::Down));
    assert_eq!(browse_command(KeyInput::Char('k')), Some(Command::Up));
    assert_eq!(browse_command(KeyInput::Char(' ')), Some(Command::ToggleSelection));
    assert_eq!(browse_command(KeyInput::Char('A')), Some(Command::SelectAll));
    assert_eq!(browse_command(KeyInput::Char('R')), Some(Command::ToggleRemote));
    assert_eq!(browse_command(KeyInput::Char('r')), None);
    assert_eq!(browse_command(KeyInput::Enter), None);
}

#[test]
fn moving_and_quitting() {
    let mut a = app(sample(), false);
    assert_eq!(a.handle_key(KeyInput::Char('j')), KeyOutcome::Continue);
    assert_eq!(a.handle_key(KeyInput::Down), KeyOutcome::Continue);
    assert_eq!(a.cursor, 2);
    assert_eq!(a.handle_key(KeyInput::Up), KeyOutcome::Continue);
    assert_eq!(a.cursor, 1);
    assert_eq!(a.handle_key(KeyInput::Other), KeyOutcome::Continue);
    assert_eq!(a.cursor, 1);
    assert_eq!(a.handle_key(KeyInput::Char('q')), KeyOutcome::Quit);
    assert_eq!(a.handle_key(KeyInput::Esc), KeyOutcome::Quit);
}

#[test]
fn help_overlay_swallows_the_next_key() {
    let mut a = app(sample(), false);
    assert_eq!(a.handle_key(KeyInput::Char('?')), KeyOutcome::Continue);
    assert!(a.show_help);
    // With help shown, even `q` only closes it.
    assert_eq!(a.handle_key(KeyInput::Char('q')), KeyOutcome::Continue);
    assert!(!a.show_help);
    assert_eq!(a.mode, Mode::Browse);
}

#[test]
fn search_is_case_insensitive_and_editable() {
    let mut a = app(sample(), false);
    assert_eq!(a.handle_key(KeyInput::Char('/')), KeyOutcome::Continue);
    assert_eq!(a.mode, Mode::Filter);
    press(&mut a, "OLDX");
    assert_eq!(a.search_query, "OLDX");
    assert!(a.visible.is_empty());
    assert_eq!(a.handle_key(KeyInput::Backspace), KeyOutcome::Continue);
    assert_eq!(a.search_query, "OLD");
    assert_eq!(a.visible, vec![0, 1]);
    assert_eq!(a.handle_key(KeyInput::Enter), KeyOutcome::Continue);
    assert_eq!(a.mode, Mode::Browse);
    assert_eq!(a.search_query, "OLD");
    assert_eq!(a.visible, vec![0, 1]);
    // Esc in filter mode clears the query and shows everything again.
    a.handle_key(KeyInput::Char('/'));
    assert_eq!(a.handle_key(KeyInput::Esc), KeyOutcome::Continue);
    assert_eq!(a.mode, Mode::Browse);
    assert_eq!(a.search_query, "");
    assert_eq!(a.visible, vec![0, 2, 3, 1, 4]);
    // Keys that are commands in browse mode are text in filter mode.
    a.handle_key(KeyInput::Char('/'));
    press(&mut a, "q");
    assert_eq!(a.search_query, "q");
    assert_eq!(a.mode, Mode::Filter);
}

#[test]
fn delete_with_nothing_selected_stays_in_browse() {
    let mut a = app(sample(), false);
    a.handle_key(KeyInput::Char('n'));
    assert_eq!(a.selected_count(), 0);
    assert_eq!(a.handle_key(KeyInput::Char('d')), KeyOutcome::Continue);
    assert_eq!(a.mode, Mode::Browse);
}

#[test]
fn lenient_confirm_accepts_y() {
    let mut a = app(local_merged_only(), false);
    assert!(!a.requires_strict_confirm());
    a.handle_key(KeyInput::Char('d'));
    assert_eq!(a.mode, Mode::Confirm);
    assert_eq!(a.handle_key(KeyInput::Char('x')), KeyOutcome::Continue);
    assert_eq!(a.mode, Mode::Confirm);
    assert_eq!(a.confirm_input, "");
    assert_eq!(a.handle_key(KeyInput::Char('y')), KeyOutcome::StartDeletion);
    assert_eq!(a.mode, Mode::Executing);
    let names: Vec<&str> = a.pending_deletions.iter().map(|b| b.name.as_str()).collect();
    assert_eq!(names, vec!["a", "b"]);
    assert!(a.deletion_results.is_empty());
    assert!(!a.execution_done);
}

#[test]
fn strict_confirm_needs_typed_yes() {
    let mut a = app(sample(), false);
    assert!(a.requires_strict_confirm());
    a.handle_key(KeyInput::Char('d'));
    assert_eq!(a.mode, Mode::Confirm);
    assert_eq!(a.handle_key(KeyInput::Char('y')), KeyOutcome::Continue);
    assert_eq!(a.handle_key(KeyInput::Enter), KeyOutcome::Continue);
    assert_eq!(a.mode, Mode::Confirm);
    press(&mut a, "ess");
    assert_eq!(a.confirm_input, "yess");
    a.handle_key(KeyInput::Backspace);
    assert_eq!(a.confirm_input, "yes");
    assert_eq!(a.handle_key(KeyInput::Enter), KeyOutcome::StartDeletion);
    assert_eq!(a.mode, Mode::Executing);
    let names: Vec<&str> = a.pending_deletions.iter().map(|b| b.name.as_str()).collect();
    assert_eq!(
        names,
        vec!["feature/old-merged", "origin/feature/remote-merged", "feature/new-merged"]
    );
}

#[test]
fn escape_leaves_confirm_and_clears_input() {
    let mut a = app(sample(), false);
    a.handle_key(KeyInput::Char('d'));
    press(&mut a, "ye");
    assert_eq!(a.handle_key(KeyInput::Esc), KeyOutcome::Continue);
    assert_eq!(a.mode, Mode::Browse);
    assert_eq!(a.confirm_input, "");
    a.handle_key(KeyInput::Char('d'));
    assert_eq!(a.confirm_input, "");
}

#[test]
fn deletions_run_to_the_summary() {
    let mut a = app(local_merged_only(), false);
    a.handle_key(KeyInput::Enter);
    assert_eq!(a.mode, Mode::Browse);
    a.handle_key(KeyInput::Char('d'));
    assert_eq!(a.handle_key(KeyInput::Enter), KeyOutcome::StartDeletion);
    // Keys are ignored while deleting.
    assert_eq!(a.handle_key(KeyInput::Char('q')), KeyOutcome::Continue);
    let first = a.next_pending().cloned().unwrap();
    assert_eq!(first.name, "a");
    a.record_deletion(deletion_result(first, Ok(())));
    assert_eq!(a.mode, Mode::Executing);
    assert!(!a.execution_done);
    let second = a.next_pending().cloned().unwrap();
    a.record_deletion(deletion_result(second, Err(GitError::CommandFailed("nope".to_string()))));
    assert!(a.next_pending().is_none());
    assert!(a.execution_done);
    assert_eq!(a.mode, Mode::Summary);
    assert_eq!(a.deletion_results.len(), 2);
    assert!(a.deletion_results[0].success);
    assert_eq!(a.deletion_results[1].error.as_deref(), Some("nope"));
    assert_eq!(a.handle_key(KeyInput::Char('x')), KeyOutcome::Quit);
}

#[test]
fn delete_requests_per_branch_kind() {
    match delete_request(&branch("origin/feature/x", 1, true, true), false) {
        DeleteRequest::Remote { name } => assert_eq!(name, "feature/x"),
        other => panic!("unexpected {:?}", other),
    }
    match delete_request(&branch("upstream/y", 1, true, true), true) {
        DeleteRequest::Remote { name } => assert_eq!(name, "upstream/y"),
        other => panic!("unexpected {:?}", other),
    }
    match delete_request(&branch("topic", 1, false, false), true) {
        DeleteRequest::Local { name, flag } => {
            assert_eq!(name, "topic");
            assert_eq!(flag, "-D");
        }
        other => panic!("unexpected {:?}", other),
    }
    match delete_request(&branch("topic", 1, true, false), false) {
        DeleteRequest::Local { flag, .. } => assert_eq!(flag, "-d"),
        other => panic!("unexpected {:?}", other),
    }
}

#[test]
fn deletion_results_carry_error_text() {
    let r = deletion_result(branch("t", 1, false, false), Err(GitError::UnmergedBranch("t".to_string())));
    assert!(!r.success);
    assert_eq!(r.error.as_deref(), Some("Branch 't' is not fully merged"));
    assert_eq!(r.branch.name, "t");
    let ok = deletion_result(branch("u", 1, true, false), Ok(()));
    assert!(ok.success);
    assert!(ok.error.is_none());
}
