use chrono::Utc;
use deadbranch::branch::{Branch, BranchFilter};
use deadbranch::order::SortOrder;
use deadbranch::tui::App;

fn test_branch(name: &str, age_days: i64, is_merged: bool, is_remote: bool) -> Branch {
    Branch {
        name: name.to_string(),
        age_days,
        is_merged,
        is_remote,
        last_commit_sha: "abc123".to_string(),
        last_commit_date: Utc::now().timestamp(),
        last_commit_author: String::new(),
    }
}

fn default_filter() -> BranchFilter {
    BranchFilter::default()
}

fn sample_branches() -> Vec<Branch> {
    vec![
        test_branch("feature/old-merged", 60, true, false),
        test_branch("feature/old-unmerged", 45, false, false),
        test_branch("origin/feature/remote-merged", 30, true, true),
        test_branch("feature/new-merged", 10, true, false),
        test_branch("feature/new-unmerged", 5, false, false),
    ]
}

#[test]
fn test_new_pre_selects_merged() {
    let branches = sample_branches();
    let app = App::new(branches, &default_filter(), "main", false);

    assert!(app.selected[0]); // merged
    assert!(!app.selected[1]); // unmerged
    assert!(app.selected[2]); // merged remote
    assert!(app.selected[3]); // merged
    assert!(!app.selected[4]); // unmerged
}

#[test]
fn test_new_seeds_filter_toggles() {
    let filter = BranchFilter {
        merged_only: true,
        local_only: true,
        ..Default::default()
    };
    let app = App::new(sample_branches(), &filter, "main", false);

    assert!(app.filter_merged_only);
    assert!(app.filter_local_only);
    assert!(!app.filter_remote_only);
}

#[test]
fn test_visible_shows_all_by_default() {
    let branches = sample_branches();
    let count = branches.len();
    let app = App::new(branches, &default_filter(), "main", false);
    assert_eq!(app.visible.len(), count);
}

#[test]
fn test_filter_merged_only() {
    let mut app = App::new(sample_branches(), &default_filter(), "main", false);
    app.toggle_merged_filter();

    for &idx in &app.visible {
        assert!(app.all_branches[idx].is_merged);
    }
}

#[test]
fn test_filter_local_clears_remote() {
    let mut app = App::new(sample_branches(), &default_filter(), "main", false);
    app.filter_remote_only = true;
    app.toggle_local_filter();

    assert!(app.filter_local_only);
    assert!(!app.filter_remote_only);
}

#[test]
fn test_filter_remote_clears_local() {
    let mut app = App::new(sample_branches(), &default_filter(), "main", false);
    app.filter_local_only = true;
    app.toggle_remote_filter();

    assert!(app.filter_remote_only);
    assert!(!app.filter_local_only);
}

#[test]
fn test_cursor_navigation() {
    let mut app = App::new(sample_branches(), &default_filter(), "main", false);
    assert_eq!(app.cursor, 0);

    app.cursor_down();
    assert_eq!(app.cursor, 1);

    app.cursor_up();
    assert_eq!(app.cursor, 0);

    // Should not go below 0
    app.cursor_up();
    assert_eq!(app.cursor, 0);
}

#[test]
fn test_cursor_does_not_exceed_visible() {
    let mut app = App::new(sample_branches(), &default_filter(), "main", false);
    for _ in 0..100 {
        app.cursor_down();
    }
    assert_eq!(app.cursor, app.visible.len() - 1);
}

#[test]
fn test_toggle_selection_merged() {
    let mut app = App::new(sample_branches(), &default_filter(), "main", false);
    // First visible branch is unmerged (sorted: unmerged first)
    // Find a merged branch
    let merged_pos = app
        .visible
        .iter()
        .position(|&idx| app.all_branches[idx].is_merged)
        .unwrap();

    app.cursor = merged_pos;
    let idx = app.focused_index().unwrap();

    // Deselect (was pre-selected)
    app.toggle_selection();
    assert!(!app.selected[idx]);

    // Re-select
    app.toggle_selection();
    assert!(app.selected[idx]);
}

#[test]
fn test_toggle_selection_blocks_unmerged_without_force() {
    let mut app = App::new(sample_branches(), &default_filter(), "main", false);
    // Find an unmerged branch
    let unmerged_pos = app
        .visible
        .iter()
        .position(|&idx| !app.all_branches[idx].is_merged)
        .unwrap();

    app.cursor = unmerged_pos;
    let idx = app.focused_index().unwrap();
    assert!(!app.selected[idx]);

    app.toggle_selection();
    assert!(!app.selected[idx]); // Should still be unselected
}

#[test]
fn test_toggle_selection_allows_unmerged_with_force() {
    let mut app = App::new(sample_branches(), &default_filter(), "main", true);
    let unmerged_pos = app
        .visible
        .iter()
        .position(|&idx| !app.all_branches[idx].is_merged)
        .unwrap();

    app.cursor = unmerged_pos;
    let idx = app.focused_index().unwrap();

    app.toggle_selection();
    assert!(app.selected[idx]);
}

#[test]
fn test_select_all_merged() {
    let mut app = App::new(sample_branches(), &default_filter(), "main", false);
    app.deselect_all();
    app.select_all_merged();

    for (i, branch) in app.all_branches.iter().enumerate() {
        if branch.is_merged {
            assert!(app.selected[i]);
        } else {
            assert!(!app.selected[i]);
        }
    }
}

#[test]
fn test_select_all_with_force() {
    let mut app = App::new(sample_branches(), &default_filter(), "main", true);
    app.deselect_all();
    app.select_all();

    for &sel in &app.selected {
        assert!(sel);
    }
}

#[test]
fn test_select_all_without_force_skips_unmerged() {
    let mut app = App::new(sample_branches(), &default_filter(), "main", false);
    app.deselect_all();
    app.select_all();

    for (i, branch) in app.all_branches.iter().enumerate() {
        if branch.is_merged {
            assert!(app.selected[i]);
        } else {
            assert!(!app.selected[i]);
        }
    }
}

#[test]
fn test_deselect_all() {
    let mut app = App::new(sample_branches(), &default_filter(), "main", false);
    app.deselect_all();
    assert_eq!(app.selected_count(), 0);
}

#[test]
fn test_selected_count() {
    let app = App::new(sample_branches(), &default_filter(), "main", false);
    // 3 merged branches are pre-selected
    assert_eq!(app.selected_count(), 3);
}

#[test]
fn test_selected_local_and_remote_counts() {
    let app = App::new(sample_branches(), &default_filter(), "main", false);
    assert_eq!(app.selected_local_count(), 2); // 2 merged local
    assert_eq!(app.selected_remote_count(), 1); // 1 merged remote
}

#[test]
fn test_requires_strict_confirm_with_remote() {
    let app = App::new(sample_branches(), &default_filter(), "main", false);
    // Has a remote branch selected
    assert!(app.requires_strict_confirm());
}

#[test]
fn test_requires_strict_confirm_local_merged_only() {
    let branches = vec![
        test_branch("feature/a", 30, true, false),
        test_branch("feature/b", 20, true, false),
    ];
    let app = App::new(branches, &default_filter(), "main", false);
    // All selected are local and merged
    assert!(!app.requires_strict_confirm());
}

#[test]
fn test_cycle_sort() {
    let mut app = App::new(sample_branches(), &default_filter(), "main", false);
    assert_eq!(app.sort_order, SortOrder::Age);

    app.cycle_sort();
    assert_eq!(app.sort_order, SortOrder::Name);

    app.cycle_sort();
    assert_eq!(app.sort_order, SortOrder::Status);

    app.cycle_sort();
    assert_eq!(app.sort_order, SortOrder::Age);
}

#[test]
fn test_search_query_filters() {
    let mut app = App::new(sample_branches(), &default_filter(), "main", false);
    app.search_query = "remote".to_string();
    app.update_visible();

    assert_eq!(app.visible.len(), 1);
    assert!(app.all_branches[app.visible[0]].name.contains("remote"));
}

#[test]
fn test_focused_branch() {
    let app = App::new(sample_branches(), &default_filter(), "main", false);
    assert!(app.focused_branch().is_some());
}

#[test]
fn test_focused_branch_empty() {
    let app = App::new(Vec::new(), &default_filter(), "main", false);
    assert!(app.focused_branch().is_none());
}

#[test]
fn test_sort_order_labels() {
    assert_eq!(SortOrder::Age.label(), "Age");
    assert_eq!(SortOrder::Name.label(), "Name");
    assert_eq!(SortOrder::Status.label(), "Status");
}

#[test]
fn test_requires_strict_confirm_with_unmerged() {
    let branches = vec![
        test_branch("feature/old", 45, true, false),
        test_branch("bugfix/stale", 60, false, false),
    ];
    let mut app = App::new(branches, &BranchFilter::default(), "main", true);
    app.deselect_all();
    app.selected[1] = true; // unmerged local
    assert!(app.requires_strict_confirm());
}

#[test]
fn test_cycle_sort_changes_order() {
    // zebra is older (50d), alpha is newer (10d)
    // Age sort (oldest first) = zebra, alpha
    // Name sort = alpha, zebra
    let branches = vec![
        test_branch("zebra", 50, true, false),
        test_branch("alpha", 10, true, false),
    ];
    let app_age = App::new(branches.clone(), &BranchFilter::default(), "main", false);
    let order_age: Vec<_> = app_age
        .visible
        .iter()
        .map(|&i| app_age.all_branches[i].name.as_str())
        .collect();
    assert_eq!(order_age, vec!["zebra", "alpha"]);

    let mut app_name = App::new(branches, &BranchFilter::default(), "main", false);
    app_name.cycle_sort(); // Age -> Name
    let order_name: Vec<_> = app_name
        .visible
        .iter()
        .map(|&i| app_name.all_branches[i].name.as_str())
        .collect();
    assert_eq!(order_name, vec!["alpha", "zebra"]);

    assert_ne!(order_age, order_name);
}
