use chrono::{TimeZone, Utc};
use deadbranch::clock::{days_between, format_ymd, utc_timestamp_valid, Instant};
use deadbranch::git::{
    delete_flag, delete_local_branch, delete_remote_branch, fetch_and_prune, get_branch_sha,
    get_current_branch, get_default_branch, get_merged_branches, list_branches,
    list_local_branches, list_remote_branches, parse_merged_branches, remote_branch_name,
    CommandOutput, GitError,
};

fn ok(stdout: &str) -> CommandOutput {
    CommandOutput { success: true, stdout: stdout.to_string(), stderr: String::new() }
}

fn failed(stderr: &str) -> CommandOutput {
    CommandOutput { success: false, stdout: String::new(), stderr: stderr.to_string() }
}

const DAY: i64 = 86_400;
const NOW: i64 = 1_700_000_000;

fn now() -> Instant {
    Instant { secs: NOW, nanos: 0 }
}

#[test]
fn local_listing_parses_fields_and_skips_current() {
    let merged = parse_merged_branches("  feature/done\n");
    let stdout = format!(
        "main|{}|aaa1111|Alice\nfeature/done|{}|bbb2222|Bob\nfeature/wip|{}|ccc3333|Carol\n",
        NOW - DAY,
        NOW - 10 * DAY - 5,
        NOW - 3 * DAY
    );
    let branches = list_local_branches(&ok(&stdout), &merged, "main", now()).unwrap();
    assert_eq!(branches.len(), 2);
    assert_eq!(branches[0].name, "feature/done");
    assert_eq!(branches[0].age_days, 10);
    assert!(branches[0].is_merged);
    assert!(!branches[0].is_remote);
    assert_eq!(branches[0].last_commit_sha, "bbb2222");
    assert_eq!(branches[0].last_commit_author, "Bob");
    assert_eq!(branches[0].last_commit_date, NOW - 10 * DAY - 5);
    assert_eq!(branches[1].name, "feature/wip");
    assert_eq!(branches[1].age_days, 3);
    assert!(!branches[1].is_merged);
}

#[test]
fn local_listing_ignores_malformed_lines_and_bad_timestamps() {
    let merged = parse_merged_branches("");
    let stdout = "broken|line|only\nodd|notanumber|abc|Dan\n";
    let branches = list_local_branches(&ok(stdout), &merged, "main", now()).unwrap();
    assert_eq!(branches.len(), 1);
    assert_eq!(branches[0].name, "odd");
    assert_eq!(branches[0].last_commit_date, 0);
    assert_eq!(branches[0].age_days, NOW / DAY);
}

#[test]
fn remote_listing_skips_head_and_default() {
    let merged = parse_merged_branches("  remotes/origin/feature/x\n");
    let stdout = format!(
        "origin/HEAD|{0}|a|A\norigin/main|{0}|b|B\norigin/feature/x|{0}|c|C\norigin/feature/y|{0}|d|D\n",
        NOW - 2 * DAY
    );
    let branches = list_remote_branches(&ok(&stdout), "main", &merged, now()).unwrap();
    let names: Vec<&str> = branches.iter().map(|b| b.name.as_str()).collect();
    assert_eq!(names, vec!["origin/feature/x", "origin/feature/y"]);
    assert!(branches[0].is_merged);
    assert!(!branches[1].is_merged);
    assert!(branches.iter().all(|b| b.is_remote && b.age_days == 2));
}

#[test]
fn listing_failures_report_stderr() {
    let merged = parse_merged_branches("");
    match list_local_branches(&failed("boom"), &merged, "main", now()) {
        Err(GitError::CommandFailed(m)) => assert_eq!(m, "Failed to list local branches: boom"),
        other => panic!("unexpected {:?}", other),
    }
    match list_remote_branches(&failed("bang"), "main", &merged, now()) {
        Err(GitError::CommandFailed(m)) => assert_eq!(m, "Failed to list remote branches: bang"),
        other => panic!("unexpected {:?}", other),
    }
}

#[test]
fn list_branches_combines_local_then_remote() {
    let ts = NOW - 40 * DAY;
    let local = ok(&format!("dev|{ts}|a|A\nold|{ts}|b|B\n"));
    let remote = ok(&format!("origin/HEAD|{ts}|c|C\norigin/old|{ts}|d|D\n"));
    let merged = ok("* dev\n  old\n  remotes/origin/old\n");
    let current = ok("dev\n");
    let branches = list_branches("main", &merged, &local, &current, &remote, now()).unwrap();
    let names: Vec<&str> = branches.iter().map(|b| b.name.as_str()).collect();
    assert_eq!(names, vec!["old", "origin/old"]);
    assert!(branches.iter().all(|b| b.is_merged && b.age_days == 40));
}

#[test]
fn list_branches_tolerates_failed_merged_and_current() {
    let ts = NOW - DAY;
    let local = ok(&format!("dev|{ts}|a|A\n"));
    let remote = ok("");
    let branches =
        list_branches("main", &failed("x"), &local, &failed("y"), &remote, now()).unwrap();
    assert_eq!(branches.len(), 1);
    assert!(!branches[0].is_merged);
}

#[test]
fn list_branches_local_failure_comes_first() {
    match list_branches("main", &ok(""), &failed("no refs"), &ok("dev"), &failed("no remote"), now()) {
        Err(GitError::CommandFailed(m)) => assert_eq!(m, "Failed to list local branches: no refs"),
        other => panic!("unexpected {:?}", other),
    }
    match list_branches("main", &ok(""), &ok(""), &ok("dev"), &failed("no remote"), now()) {
        Err(GitError::CommandFailed(m)) => assert_eq!(m, "Failed to list remote branches: no remote"),
        other => panic!("unexpected {:?}", other),
    }
}

#[test]
fn merged_branches_empty_when_command_fails() {
    assert!(get_merged_branches(&failed("x")).is_empty());
    assert_eq!(get_merged_branches(&ok("  a\n  b\n")).len(), 2);
}

#[test]
fn default_branch_resolution() {
    assert_eq!(get_default_branch(&ok("origin/develop\n"), false, false), "develop");
    assert_eq!(get_default_branch(&ok("upstream/trunk\n"), true, true), "main");
    assert_eq!(get_default_branch(&failed(""), true, true), "main");
    assert_eq!(get_default_branch(&failed(""), false, true), "master");
    assert_eq!(get_default_branch(&failed(""), false, false), "main");
}

#[test]
fn current_branch_and_sha() {
    assert_eq!(get_current_branch(&ok("  feature/x \n")).unwrap(), "feature/x");
    match get_current_branch(&failed("")) {
        Err(GitError::CommandFailed(m)) => assert_eq!(m, "Failed to get current branch"),
        other => panic!("unexpected {:?}", other),
    }
    assert_eq!(get_branch_sha("x", &ok("abc123\n")).unwrap(), "abc123");
    match get_branch_sha("topic", &failed("")) {
        Err(GitError::CommandFailed(m)) => assert_eq!(m, "Failed to get SHA for branch 'topic'"),
        other => panic!("unexpected {:?}", other),
    }
}

#[test]
fn fetch_outcome() {
    assert!(fetch_and_prune(&ok("")).is_ok());
    match fetch_and_prune(&failed("offline")) {
        Err(GitError::CommandFailed(m)) => assert_eq!(m, "git fetch --prune failed: offline"),
        other => panic!("unexpected {:?}", other),
    }
}

#[test]
fn deleting_local_branches() {
    assert_eq!(delete_flag(true), "-D");
    assert_eq!(delete_flag(false), "-d");
    assert!(delete_local_branch("x", &ok("")).is_ok());
    match delete_local_branch("topic", &failed("error: The branch 'topic' is not fully merged.")) {
        Err(GitError::UnmergedBranch(b)) => assert_eq!(b, "topic"),
        other => panic!("unexpected {:?}", other),
    }
    match delete_local_branch("topic", &failed("error: branch not found")) {
        Err(GitError::CommandFailed(m)) => {
            assert_eq!(m, "Failed to delete branch 'topic': error: branch not found")
        }
        other => panic!("unexpected {:?}", other),
    }
}

#[test]
fn deleting_remote_branches() {
    assert_eq!(remote_branch_name("origin/feature/x"), "feature/x");
    assert_eq!(remote_branch_name("feature/x"), "feature/x");
    assert!(delete_remote_branch("origin/x", &ok("")).is_ok());
    match delete_remote_branch("origin/x", &failed("denied")) {
        Err(GitError::CommandFailed(m)) => {
            assert_eq!(m, "Failed to delete remote branch 'origin/x': denied")
        }
        other => panic!("unexpected {:?}", other),
    }
}

#[test]
fn error_messages() {
    assert_eq!(GitError::UnmergedBranch("b".to_string()).message(), "Branch 'b' is not fully merged");
    assert_eq!(GitError::CommandFailed("m".to_string()).message(), "m");
}

#[test]
fn chrono_range_boundaries() {
    let earliest = -8_334_601_228_800i64;
    let latest = 8_210_266_876_799i64;
    assert!(utc_timestamp_valid(earliest));
    assert!(utc_timestamp_valid(latest));
    assert!(!utc_timestamp_valid(earliest - 1));
    assert!(!utc_timestamp_valid(latest + 1));
    assert!(Utc.timestamp_opt(earliest, 0).single().is_some());
    assert!(Utc.timestamp_opt(latest + 1, 0).single().is_none());
}

#[test]
fn whole_days_round_toward_zero() {
    let later = Instant { secs: NOW, nanos: 0 };
    assert_eq!(days_between(later, NOW - DAY + 1), 0);
    assert_eq!(days_between(later, NOW - DAY), 1);
    assert_eq!(days_between(later, NOW + DAY + DAY / 2), -1);
    let later_nanos = Instant { secs: NOW, nanos: 500 };
    assert_eq!(days_between(later_nanos, NOW + DAY), 0);
    assert_eq!(days_between(later_nanos, NOW + DAY - 1), 0);
    assert_eq!(days_between(later_nanos, NOW + DAY + 1), -1);
}

#[test]
fn dates_format_as_ymd() {
    assert_eq!(format_ymd(0), "1970-01-01");
    assert_eq!(format_ymd(1_700_000_000), "2023-11-14");
}
