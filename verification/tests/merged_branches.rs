use deadbranch::git::parse_merged_branches;

#[test]
fn parse_merged_local_branches() {
    let output = "  feature/auth\n  bugfix/login\n  cleanup/old-stuff\n";
    let merged = parse_merged_branches(output);
    assert!(merged.contains("feature/auth"));
    assert!(merged.contains("bugfix/login"));
    assert!(merged.contains("cleanup/old-stuff"));
    assert_eq!(merged.len(), 3);
}

#[test]
fn parse_merged_current_branch_marker() {
    let output = "* main\n  feature/auth\n";
    let merged = parse_merged_branches(output);
    assert!(merged.contains("main"));
    assert!(merged.contains("feature/auth"));
    assert!(!merged.contains("* main"));
}

#[test]
fn parse_merged_remote_branches() {
    let output = "  remotes/origin/feature/auth\n  remotes/origin/bugfix/login\n";
    let merged = parse_merged_branches(output);
    // Both full and stripped forms
    assert!(merged.contains("remotes/origin/feature/auth"));
    assert!(merged.contains("origin/feature/auth"));
    assert!(merged.contains("remotes/origin/bugfix/login"));
    assert!(merged.contains("origin/bugfix/login"));
}

#[test]
fn parse_merged_mixed_local_and_remote() {
    let output = "\
* main
  feature/done
  remotes/origin/feature/done
  remotes/origin/cleanup/old
";
    let merged = parse_merged_branches(output);
    assert!(merged.contains("main"));
    assert!(merged.contains("feature/done"));
    assert!(merged.contains("origin/feature/done"));
    assert!(merged.contains("origin/cleanup/old"));
}

#[test]
fn parse_merged_empty_output() {
    let merged = parse_merged_branches("");
    assert!(merged.is_empty());
}

#[test]
fn parse_merged_blank_lines_ignored() {
    let output = "  feature/auth\n\n  \n  bugfix/login\n";
    let merged = parse_merged_branches(output);
    assert!(merged.contains("feature/auth"));
    assert!(merged.contains("bugfix/login"));
    assert!(!merged.contains(""));
}

#[test]
fn parse_merged_lookup_matches_local_branch() {
    let output = "  feature/auth\n  remotes/origin/feature/auth\n";
    let merged = parse_merged_branches(output);
    // Local branch lookup
    assert!(merged.contains("feature/auth"));
    // Remote branch lookup (as used by list_remote_branches)
    assert!(merged.contains("origin/feature/auth"));
}
