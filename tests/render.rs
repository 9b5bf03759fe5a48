use rust_git_cli::schema::{ChangelogCategories, ChangelogSummary, CommitMessage};

fn message(body: Option<Vec<&str>>, body_en: Option<Vec<&str>>, breaking: Option<&str>) -> CommitMessage {
    CommitMessage {
        commit_type: "feat".to_string(),
        scope: Some("auth".to_string()),
        description: "添加登录".to_string(),
        description_en: "Add login".to_string(),
        body: body.map(|v| v.into_iter().map(String::from).collect()),
        body_en: body_en.map(|v| v.into_iter().map(String::from).collect()),
        breaking_change: breaking.map(String::from),
    }
}

#[test]
fn asymmetric_zip_uses_placeholder() {
    let m = message(Some(vec!["a", "b"]), Some(vec!["x"]), None);
    assert_eq!(
        m.format_conventional(),
        "feat(auth): 添加登录\nAdd login\n\na\nx\nb\n[Translation needed]"
    );
}

#[test]
fn english_only_lines_stand_alone() {
    let m = message(Some(vec!["a"]), Some(vec!["x", "y"]), None);
    assert_eq!(m.format_conventional(), "feat(auth): 添加登录\nAdd login\n\na\nx\ny");
}

#[test]
fn header_without_scope_and_with_breaking_change() {
    let mut m = message(None, None, Some("API removed"));
    m.scope = None;
    assert_eq!(
        m.format_conventional(),
        "feat: 添加登录\nAdd login\n\nBREAKING CHANGE: API removed"
    );
}

#[test]
fn empty_bodies_render_no_body() {
    let m = message(Some(vec![]), Some(vec![]), None);
    assert_eq!(m.format_conventional(), "feat(auth): 添加登录\nAdd login");
}

#[test]
fn absent_english_body_counts_as_empty() {
    let m = message(Some(vec!["a"]), None, None);
    assert_eq!(m.format_conventional(), "feat(auth): 添加登录\nAdd login\n\na\n[Translation needed]");
}

#[test]
fn changelog_display() {
    let c = ChangelogSummary {
        title: "标题".to_string(),
        title_en: "Title".to_string(),
        highlights: vec!["亮".to_string(), "点".to_string()],
        highlights_en: vec!["H".to_string()],
        categories: ChangelogCategories {
            features: vec!["f1".to_string()],
            fixes: vec![],
            improvements: vec![],
            others: vec!["o1".to_string(), "o2".to_string()],
        },
    };
    assert_eq!(
        c.format_display(),
        "## 标题\n## Title\n\n### 亮点 / Highlights\n- 亮 / H\n\n### ✨ 新功能 / Features\n- f1\n\n### 📝 其他 / Others\n- o1\n- o2\n\n"
    );
}

#[test]
fn changelog_display_without_highlights() {
    let c = ChangelogSummary {
        title: "t".to_string(),
        title_en: "T".to_string(),
        highlights: vec![],
        highlights_en: vec!["ignored".to_string()],
        categories: ChangelogCategories { features: vec![], fixes: vec!["x".to_string()], improvements: vec!["i".to_string()], others: vec![] },
    };
    assert_eq!(c.format_display(), "## t\n## T\n\n### 🐛 修复 / Fixes\n- x\n\n### 🔧 改进 / Improvements\n- i\n\n");
}
