use rust_git_cli::git::{
    combine_diffs, count_changed_lines, select_commits, CommitInfo, CommitTime, EntryState,
    GitStatus, LogOptions,
};

fn commit(id: &str, author: &str, email: &str, message: &str, seconds: i64) -> CommitInfo {
    CommitInfo {
        id: id.to_string(),
        short_id: id.to_string(),
        author: author.to_string(),
        email: email.to_string(),
        time: CommitTime { seconds, year: 2024, month: 1, day: 2, hour: 3, minute: 4 },
        summary: message.lines().next().unwrap_or("").to_string(),
        message: message.to_string(),
    }
}

fn walk() -> Vec<CommitInfo> {
    vec![
        commit("a", "Alice", "alice@x.org", "Fix login bug", 500),
        commit("b", "Bob", "bob@y.org", "Add feature", 400),
        commit("c", "Carol", "ALICE@corp.org", "fix typo", 300),
        commit("d", "Dan", "dan@z.org", "FIX crash", 200),
    ]
}

fn ids(cs: &[CommitInfo]) -> Vec<String> {
    cs.iter().map(|c| c.id.clone()).collect()
}

fn options(count: usize, grep: Option<&str>, author: Option<&str>) -> LogOptions {
    LogOptions { count, grep: grep.map(String::from), author: author.map(String::from), since: None, until: None }
}

#[test]
fn grep_ignores_case() {
    let r = select_commits(walk(), &options(10, Some("FiX"), None), None, None);
    assert_eq!(ids(&r), vec!["a", "c", "d"]);
}

#[test]
fn author_matches_name_or_email() {
    let r = select_commits(walk(), &options(10, None, Some("alice")), None, None);
    assert_eq!(ids(&r), vec!["a", "c"]);
}

#[test]
fn count_keeps_the_first_matches() {
    let r = select_commits(walk(), &options(2, Some("fix"), None), None, None);
    assert_eq!(ids(&r), vec!["a", "c"]);
    assert!(select_commits(walk(), &options(0, None, None), None, None).is_empty());
}

#[test]
fn time_bounds_are_inclusive() {
    let r = select_commits(walk(), &options(10, None, None), Some(300), Some(400));
    assert_eq!(ids(&r), vec!["b", "c"]);
}

#[test]
fn combined_diff_sections() {
    assert_eq!(combine_diffs("", ""), "");
    assert_eq!(combine_diffs("s", ""), "=== STAGED CHANGES ===\n\ns");
    assert_eq!(combine_diffs("", "u"), "=== UNSTAGED CHANGES ===\n\nu");
    assert_eq!(
        combine_diffs("s", "u"),
        "=== STAGED CHANGES ===\n\ns\n\n=== UNSTAGED CHANGES ===\n\nu"
    );
}

#[test]
fn counts_added_and_removed_lines() {
    assert_eq!(count_changed_lines("+a\n-b\n c\n+++ x\n--- y\n+\n"), (3, 2));
    assert_eq!(count_changed_lines(""), (0, 0));
    assert_eq!(count_changed_lines("-"), (0, 1));
}

#[test]
fn status_sorts_paths_by_kind() {
    let st = |m, n, d, r| EntryState { modified: m, new: n, deleted: d, renamed: r };
    let s = GitStatus::from_entries(vec![
        ("a".to_string(), st(true, true, false, false)),
        ("b".to_string(), st(false, true, false, false)),
        ("c".to_string(), st(false, false, true, true)),
        ("d".to_string(), st(false, false, false, true)),
        ("e".to_string(), st(false, false, false, false)),
    ]);
    assert!(!s.is_clean);
    assert_eq!(s.modified_files, vec!["a".to_string()]);
    assert_eq!(s.new_files, vec!["b".to_string()]);
    assert_eq!(s.deleted_files, vec!["c".to_string()]);
    assert_eq!(s.renamed_files, vec!["d".to_string()]);
    assert!(GitStatus::from_entries(vec![]).is_clean);
}
