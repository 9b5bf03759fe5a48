use rust_git_cli::config::{default_max_tokens, Config};
use rust_git_cli::git::{CommitInfo, CommitTime, GitStatus};
use rust_git_cli::prompt::{build_changelog_prompt, build_prompt, truncate_diff, ChangelogContext, CommitContext};

fn time(year: i32, month: u32, day: u32) -> CommitTime {
    CommitTime { seconds: 0, year, month, day, hour: 7, minute: 5 }
}

#[test]
fn commit_prompt_holds_context_and_diff() {
    let ctx = CommitContext { branch_name: None, file_count: 12, added_lines: 0, removed_lines: 305 };
    let p = build_prompt("+line", &ctx);
    assert!(p.starts_with("You are a Git commit message generator."));
    assert!(p.contains("- Branch: unknown\n- Files changed: 12\n- Lines added: 0\n- Lines removed: 305\n"));
    assert!(p.contains("Git Diff:\n```\n+line\n```\n"));
    assert!(p.contains("\"breaking_change\": null\n}\n"));
}

#[test]
fn long_diff_is_cut_at_budget() {
    let diff = "a".repeat(5000);
    let ctx = CommitContext { branch_name: Some("dev".to_string()), file_count: 1, added_lines: 1, removed_lines: 1 };
    let p = build_prompt(&diff, &ctx);
    assert!(p.contains(&format!("```\n{}\n```", "a".repeat(3000))));
    assert!(!p.contains(&"a".repeat(3001)));
}

#[test]
fn truncation_respects_character_boundaries() {
    assert_eq!(truncate_diff("héllo", 2), "h");
    assert_eq!(truncate_diff("héllo", 3), "hé");
    assert_eq!(truncate_diff("abc", 10), "abc");
    assert_eq!(truncate_diff("中文", 2), "");
}

#[test]
fn changelog_prompt_lists_commits() {
    let c = |id: &str, y: i32, s: &str| CommitInfo {
        id: format!("{}0000000", id),
        short_id: id.to_string(),
        author: "Ann".to_string(),
        email: "a@x".to_string(),
        time: time(y, 3, 9),
        summary: s.to_string(),
        message: s.to_string(),
    };
    let commits = vec![c("abc1234", 2024, "first"), c("def5678", 987, "second")];
    let p = build_changelog_prompt(&commits, &ChangelogContext { total_commits: 2, date_range: None });
    assert!(p.contains("- Total commits: 2\n- Date range: N/A\n"));
    assert!(p.contains("```\n- [abc1234] 2024-03-09 - first (Ann)\n- [def5678] 0987-03-09 - second (Ann)\n```"));
}

#[test]
fn minute_format() {
    assert_eq!(time(2025, 12, 1).format_minute(), "2025-12-01 07:05");
    assert_eq!(time(-5, 1, 1).format_minute(), "-0005-01-01 07:05");
    assert_eq!(time(12345, 1, 1).format_minute(), "+12345-01-01 07:05");
}

#[test]
fn config_defaults_and_key() {
    let mut c = Config::default();
    assert_eq!(c.ai.provider, "openai");
    assert_eq!(c.ai.max_tokens, default_max_tokens());
    assert_eq!(default_max_tokens(), 2000);
    assert_eq!(c.get_api_key(Some("env".to_string())), Some("env".to_string()));
    c.ai.api_key = Some("direct".to_string());
    assert_eq!(c.get_api_key(Some("env".to_string())), Some("direct".to_string()));
}

#[test]
fn total_changes_sums_kinds() {
    let s = GitStatus {
        is_clean: false,
        modified_files: vec!["a".into()],
        new_files: vec!["b".into(), "c".into()],
        deleted_files: vec![],
        renamed_files: vec!["d".into()],
    };
    assert_eq!(s.total_changes(), 4);
}
