use deadbranch::branch::{Branch, BranchFilter};
use deadbranch::session::{deletion_result, KeyInput};
use deadbranch::git::GitError;
use deadbranch::tui::{App, Mode};
use deadbranch::view::{
    branch_rows, compute_scroll_offset, confirm_drawable_check, confirm_lines, empty_list_line,
    executing_lines, header_line, help_lines, help_overlay_rect, hints_line, list_drawable_check,
    screen_for, selection_line, summary_lines, Screen, StyledLine, Tone,
};

const DATE: i64 = 1_700_000_000; // 2023-11-14

fn branch(name: &str, age_days: i64, is_merged: bool, is_remote: bool) -> Branch {
    Branch {
        name: name.to_string(),
        age_days,
        is_merged,
        is_remote,
        last_commit_sha: "abc1234567".to_string(),
        last_commit_date: DATE,
        last_commit_author: "Ann".to_string(),
    }
}

fn sample() -> Vec<Branch> {
    vec![
        branch("feature/old-merged", 60, true, false),
        branch("feature/old-unmerged", 45, false, false),
        branch("origin/feature/remote-merged", 30, true, true),
        branch("feature/new-merged", 10, true, false),
        branch("feature/new-unmerged", 5, false, false),
    ]
}

fn app(branches: Vec<Branch>, force: bool) -> App {
    App::new(branches, &BranchFilter::default(), "main", force)
}

fn spans(line: &StyledLine) -> Vec<(String, Tone, bool)> {
    line.spans.iter().map(|s| (s.text.clone(), s.tone, s.bold)).collect()
}

fn sp(text: &str, tone: Tone, bold: bool) -> (String, Tone, bool) {
    (text.to_string(), tone, bold)
}

fn texts(lines: &[StyledLine]) -> Vec<String> {
    lines.iter().map(|l| l.spans.iter().map(|s| s.text.as_str()).collect::<String>()).collect()
}

#[test]
fn header_reports_counts_filters_sort_and_search() {
    let mut a = app(sample(), false);
    assert_eq!(
        spans(&header_line(&a)),
        vec![
            sp(" deadbranch clean", Tone::Default, true),
            sp(" \u{2500}\u{2500} main \u{2500}\u{2500} 5 branches", Tone::Gray, false),
        ]
    );
    a.handle_key(KeyInput::Char('m'));
    a.handle_key(KeyInput::Char('l'));
    a.handle_key(KeyInput::Char('s'));
    a.handle_key(KeyInput::Char('/'));
    a.handle_key(KeyInput::Char('e'));
    assert_eq!(
        spans(&header_line(&a)),
        vec![
            sp(" deadbranch clean", Tone::Default, true),
            sp(" \u{2500}\u{2500} main \u{2500}\u{2500} 2 of 5 branches", Tone::Gray, false),
            sp("  [merged, local]", Tone::Cyan, false),
            sp("  sort:Name", Tone::Gray, false),
            sp("  filter: ", Tone::Yellow, false),
            sp("e", Tone::White, false),
            sp("\u{2588}", Tone::Yellow, false),
        ]
    );
    a.handle_key(KeyInput::Enter);
    assert_eq!(spans(&header_line(&a))[4], sp("  /e", Tone::Gray, false));
}

#[test]
fn status_bar_lines() {
    let hints = texts(&[hints_line(Mode::Browse), hints_line(Mode::Filter)]);
    assert_eq!(
        hints[0],
        " j/k move  Space select  a merged  d delete  / filter  s sort  ? help  q quit"
    );
    assert_eq!(hints[1], " Enter apply  Esc clear  ");
    let mut a = app(sample(), false);
    assert_eq!(
        spans(&selection_line(&a)),
        vec![sp(" Selected: 3 branches (2 local, 1 remote)", Tone::White, false)]
    );
    a.handle_key(KeyInput::Char('n'));
    assert_eq!(spans(&selection_line(&a)), vec![sp(" No branches selected", Tone::Gray, false)]);
}

#[test]
fn list_rows_group_merged_before_unmerged() {
    let a = app(sample(), false);
    assert!(list_drawable_check(&a));
    let rows = branch_rows(&a);
    let shown: Vec<Option<usize>> = rows.iter().map(|r| r.row).collect();
    assert_eq!(shown, vec![None, Some(0), Some(1), Some(2), None, Some(3), Some(4)]);
    assert_eq!(spans(&rows[0].line), vec![sp("  MERGED (safe to delete)", Tone::Green, true)]);
    assert_eq!(
        spans(&rows[4].line),
        vec![sp("  UNMERGED (use --force to unlock)", Tone::Yellow, true)]
    );
    assert_eq!(
        spans(&rows[1].line),
        vec![
            sp(" \u{25b6} ", Tone::White, false),
            sp("[x]", Tone::Green, false),
            sp(&format!(" {:<30}", "feature/old-merged"), Tone::White, true),
            sp("  60d", Tone::Gray, false),
            sp(" merged  ", Tone::Green, false),
            sp(" local ", Tone::Cyan, false),
            sp("  2023-11-14", Tone::Gray, false),
        ]
    );
    assert_eq!(
        spans(&rows[5].line),
        vec![
            sp("   ", Tone::Default, false),
            sp("\u{2591}\u{2591}", Tone::Gray, false),
            sp(&format!(" {:<30}", "feature/old-unmerged"), Tone::Gray, false),
            sp("  45d", Tone::Gray, false),
            sp(" unmerged", Tone::Yellow, false),
            sp(" local ", Tone::Cyan, false),
            sp("  2023-11-14", Tone::Gray, false),
        ]
    );
    assert_eq!(spans(&rows[2].line)[5], sp(" remote", Tone::Blue, false));
    let forced = app(sample(), true);
    let rows = branch_rows(&forced);
    assert_eq!(spans(&rows[4].line), vec![sp("  UNMERGED (review carefully)", Tone::Yellow, true)]);
    assert_eq!(spans(&rows[5].line)[1], sp("[ ]", Tone::Gray, false));
}

#[test]
fn long_names_are_shortened() {
    let long = "feature/a-very-long-branch-name-indeed";
    let a = app(vec![branch(long, 1234, true, false)], false);
    let rows = branch_rows(&a);
    assert_eq!(rows[1].line.spans[2].text, format!(" {}..", &long[..28]));
    assert_eq!(rows[1].line.spans[3].text, "1234d");
    // A cut that would split a character cannot be drawn.
    let wide = format!("{}\u{e9}{}", "x".repeat(27), "y".repeat(5));
    let b = app(vec![branch(&wide, 1, true, false)], false);
    assert!(!list_drawable_check(&b));
    let mut far = branch("far", 1, true, false);
    far.last_commit_date = i64::MAX;
    assert!(!list_drawable_check(&app(vec![far], false)));
}

#[test]
fn empty_list_messages() {
    let mut a = app(sample(), false);
    assert_eq!(texts(&[empty_list_line(&a)]), vec!["  No branches match current filters"]);
    a.handle_key(KeyInput::Char('/'));
    a.handle_key(KeyInput::Char('z'));
    assert!(a.visible.is_empty());
    assert_eq!(texts(&[empty_list_line(&a)]), vec!["  No branches match search query"]);
}

#[test]
fn confirm_screen_lists_groups_and_prompt() {
    let mut a = app(sample(), true);
    a.handle_key(KeyInput::Down);
    a.handle_key(KeyInput::Down);
    a.handle_key(KeyInput::Down);
    a.handle_key(KeyInput::Char(' '));
    assert_eq!(a.selected, vec![true, true, true, true, false]);
    a.handle_key(KeyInput::Char('d'));
    a.handle_key(KeyInput::Char('y'));
    assert!(confirm_drawable_check(&a));
    let lines = confirm_lines(&a);
    assert_eq!(
        texts(&lines),
        vec![
            "  \u{2713} Safe to delete (3):",
            "    \u{2713} feature/old-merged  local  60d  abc1234",
            "    \u{2713} origin/feature/remote-merged  remote  30d  abc1234",
            "    \u{2713} feature/new-merged  local  10d  abc1234",
            "",
            "  \u{26a0} Unmerged branches (1):",
            "    \u{2717} feature/old-unmerged  local  45d  abc1234",
            "",
            "  4 branches will be deleted (1 remote)",
            "",
            "  A backup will be created automatically",
            "  Restore with: deadbranch backup restore <branch-name>",
            "",
            "  Type 'yes' to confirm, Esc to go back: y\u{2588}",
        ]
    );
    assert_eq!(spans(&lines[6])[1], sp("feature/old-unmerged", Tone::Yellow, false));
    assert_eq!(spans(&lines[0])[0].1, Tone::Green);
}

#[test]
fn lenient_confirm_prompt() {
    let mut a = app(vec![branch("a", 3, true, false)], false);
    a.all_branches[0].last_commit_sha = "12".to_string();
    a.handle_key(KeyInput::Char('d'));
    let lines = texts(&confirm_lines(&a));
    assert_eq!(lines[1], "    \u{2713} a  local  3d  12");
    assert_eq!(lines[3], "  1 branches will be deleted");
    assert_eq!(lines.last().unwrap(), "  Press Enter or y to confirm, Esc to go back");
    // A SHA whose seventh byte falls inside a character cannot be drawn.
    a.all_branches[0].last_commit_sha = "abcdef\u{e9}".to_string();
    assert!(!confirm_drawable_check(&a));
}

#[test]
fn executing_and_summary_screens() {
    let mut a = app(sample(), false);
    a.handle_key(KeyInput::Char('d'));
    for c in "yes".chars() {
        a.handle_key(KeyInput::Char(c));
    }
    a.handle_key(KeyInput::Enter);
    a.backup_path = Some("/tmp/backup.txt".to_string());
    let first = a.next_pending().cloned().unwrap();
    a.record_deletion(deletion_result(first, Ok(())));
    assert_eq!(
        texts(&executing_lines(&a)),
        vec![
            "  Backup: /tmp/backup.txt",
            "",
            "  \u{2713} feature/old-merged",
            "",
            "  1 of 3 completed",
        ]
    );
    let second = a.next_pending().cloned().unwrap();
    a.record_deletion(deletion_result(second, Err(GitError::CommandFailed("denied".to_string()))));
    let third = a.next_pending().cloned().unwrap();
    a.record_deletion(deletion_result(third, Ok(())));
    assert_eq!(a.mode, Mode::Summary);
    assert_eq!(
        texts(&executing_lines(&a))[3],
        "  \u{2717} origin/feature/remote-merged  denied"
    );
    let summary = summary_lines(&a);
    assert_eq!(
        texts(&summary),
        vec![
            "  2 deleted \u{00b7} 1 failed",
            "",
            "  Failures:",
            "    \u{2717} origin/feature/remote-merged: denied",
            "",
            "  To restore:",
            "    deadbranch backup restore <branch-name>",
            "",
            "  Press any key to exit",
        ]
    );
    assert_eq!(spans(&summary[0])[0].1, Tone::Yellow);
}

#[test]
fn summary_without_failures_or_successes() {
    let mut a = app(vec![branch("a", 1, true, false)], false);
    a.handle_key(KeyInput::Char('d'));
    a.handle_key(KeyInput::Enter);
    let b = a.next_pending().cloned().unwrap();
    a.record_deletion(deletion_result(b, Ok(())));
    let lines = summary_lines(&a);
    assert_eq!(spans(&lines[0])[0], sp("  1 deleted \u{00b7} 0 failed", Tone::Green, false));
    assert_eq!(texts(&lines)[2], "  To restore:");
    let mut f = app(vec![branch("a", 1, true, false)], false);
    f.handle_key(KeyInput::Char('d'));
    f.handle_key(KeyInput::Enter);
    let b = f.next_pending().cloned().unwrap();
    let mut r = deletion_result(b, Ok(()));
    r.success = false;
    f.record_deletion(r);
    assert_eq!(
        texts(&summary_lines(&f)),
        vec![
            "  0 deleted \u{00b7} 1 failed",
            "",
            "  Failures:",
            "    \u{2717} a: unknown error",
            "",
            "  Press any key to exit",
        ]
    );
}

#[test]
fn help_overlay_content_and_placement() {
    let lines = help_lines();
    assert_eq!(lines.len(), 22);
    assert_eq!(spans(&lines[0]), vec![sp(" Navigation", Tone::Cyan, true)]);
    assert_eq!(
        spans(&lines[1]),
        vec![sp("      j / Down", Tone::Yellow, false), sp("  Move down", Tone::White, false)]
    );
    assert_eq!(texts(&lines)[21], " Use --force to select unmerged branches");
    assert_eq!(help_overlay_rect(100, 40), (25, 9, 50, 22));
    assert_eq!(help_overlay_rect(30, 10), (2, 2, 26, 6));
    assert_eq!(help_overlay_rect(3, 2), (1, 1, 0, 0));
}

#[test]
fn scrolling_keeps_the_cursor_in_view() {
    let rows = vec![None, Some(0), Some(1), Some(2), None, Some(3), Some(4)];
    assert_eq!(compute_scroll_offset(&rows, 4, 0, 3), 4);
    assert_eq!(compute_scroll_offset(&rows, 0, 4, 3), 1);
    assert_eq!(compute_scroll_offset(&rows, 2, 2, 3), 2);
    assert_eq!(compute_scroll_offset(&rows, 9, 2, 3), 0);
    assert_eq!(compute_scroll_offset(&rows, 3, 0, 1), 5);
    // A huge offset with the cursor above it, and a huge height.
    assert_eq!(compute_scroll_offset(&rows, 1, usize::MAX, 3), 2);
    assert_eq!(compute_scroll_offset(&rows, 4, 1, usize::MAX), 1);
}

#[test]
fn screens_per_mode() {
    assert_eq!(screen_for(Mode::Browse), Screen::Browse);
    assert_eq!(screen_for(Mode::Filter), Screen::Browse);
    assert_eq!(screen_for(Mode::Confirm), Screen::Confirm);
    assert_eq!(screen_for(Mode::Executing), Screen::Executing);
    assert_eq!(screen_for(Mode::Summary), Screen::Summary);
}
