use rust_git_cli::schema::{ChangelogSummary, CommitMessage, SchemaError};

fn commit(text: &str) -> Result<CommitMessage, SchemaError> {
    CommitMessage::from_json_text(text)
}

#[test]
fn reads_full_commit_message() {
    let m = commit(r#"{"type":"feat","scope":"auth","description":"添加","description_en":"Add","body":["a","b"],"body_en":["x","y"],"breaking_change":null}"#).unwrap();
    assert_eq!(m.commit_type, "feat");
    assert_eq!(m.scope, Some("auth".to_string()));
    assert_eq!(m.description, "添加");
    assert_eq!(m.description_en, "Add");
    assert_eq!(m.body, Some(vec!["a".to_string(), "b".to_string()]));
    assert_eq!(m.body_en, Some(vec!["x".to_string(), "y".to_string()]));
    assert_eq!(m.breaking_change, None);
}

#[test]
fn commit_type_key_is_accepted() {
    let m = commit(r#"{"commit_type":"fix","description":"d"}"#).unwrap();
    assert_eq!(m.commit_type, "fix");
    assert_eq!(m.description_en, "");
    assert_eq!(m.body, None);
    assert_eq!(m.body_en, None);
    assert_eq!(m.scope, None);
}

#[test]
fn both_type_keys_are_a_duplicate() {
    assert_eq!(
        commit(r#"{"commit_type":"fix","type":"feat","description":"d"}"#),
        Err(SchemaError::DuplicateField("commit_type".to_string()))
    );
}

#[test]
fn single_string_body_is_one_line() {
    let m = commit(r#"{"type":"fix","description":"d","body":"only"}"#).unwrap();
    assert_eq!(m.body, Some(vec!["only".to_string()]));
}

#[test]
fn breaking_change_true_is_sentinel() {
    let m = commit(r#"{"type":"fix","description":"d","breaking_change":true}"#).unwrap();
    assert_eq!(m.breaking_change, Some("Breaking change".to_string()));
}

#[test]
fn breaking_change_false_or_absent_is_none() {
    let m = commit(r#"{"type":"fix","description":"d","breaking_change":false}"#).unwrap();
    assert_eq!(m.breaking_change, None);
    let m = commit(r#"{"type":"fix","description":"d"}"#).unwrap();
    assert_eq!(m.breaking_change, None);
}

#[test]
fn breaking_change_string_is_kept() {
    let m = commit(r#"{"type":"fix","description":"d","breaking_change":"API removed"}"#).unwrap();
    assert_eq!(m.breaking_change, Some("API removed".to_string()));
}

#[test]
fn schema_errors() {
    assert_eq!(commit("not json"), Err(SchemaError::InvalidJson));
    assert_eq!(commit("[1,2]"), Err(SchemaError::NotAnObject));
    assert_eq!(commit(r#"{"type":"fix"}"#), Err(SchemaError::MissingField("description".to_string())));
    assert_eq!(commit(r#"{"description":"d"}"#), Err(SchemaError::MissingField("commit_type".to_string())));
    assert_eq!(
        commit(r#"{"type":"fix","description":"d","body":[1]}"#),
        Err(SchemaError::InvalidField("body".to_string()))
    );
    assert_eq!(
        commit(r#"{"type":"fix","description":"d","breaking_change":3}"#),
        Err(SchemaError::InvalidField("breaking_change".to_string()))
    );
    assert_eq!(
        commit(r#"{"type":"fix","description":"d","body_en":"x"}"#),
        Err(SchemaError::InvalidField("body_en".to_string()))
    );
}

#[test]
fn reparsing_gives_the_same_value() {
    let text = r#"{"type":"docs","description":"d","body":["a"],"breaking_change":true}"#;
    assert_eq!(commit(text), commit(text));
}

#[test]
fn reads_changelog_with_defaulted_groups() {
    let c = ChangelogSummary::from_json_text(
        r#"{"title":"t","title_en":"T","highlights":["h"],"highlights_en":["H"],"categories":{"fixes":["f"]}}"#,
    )
    .unwrap();
    assert_eq!(c.title, "t");
    assert_eq!(c.categories.fixes, vec!["f".to_string()]);
    assert!(c.categories.features.is_empty());
    assert!(c.categories.others.is_empty());
}

#[test]
fn changelog_requires_categories() {
    assert_eq!(
        ChangelogSummary::from_json_text(r#"{"title":"t","title_en":"T","highlights":[],"highlights_en":[]}"#),
        Err(SchemaError::MissingField("categories".to_string()))
    );
}
