use rust_git_cli::extract::{extract_json_object, strip_code_fence};

#[test]
fn extracts_object_between_commentary() {
    let text = "Here is the result: {\"a\":{\"b\":1}} hope this helps }";
    assert_eq!(extract_json_object(text), Some("{\"a\":{\"b\":1}}".to_string()));
}

#[test]
fn extracts_only_the_first_object() {
    assert_eq!(extract_json_object("} x {\"a\":1}{\"b\":2}"), Some("{\"a\":1}".to_string()));
}

#[test]
fn unbalanced_object_is_not_found() {
    assert_eq!(extract_json_object("prefix {\"a\":{\"b\":1}"), None);
    assert_eq!(extract_json_object("no braces at all"), None);
    assert_eq!(extract_json_object(""), None);
}

#[test]
fn braces_inside_strings_are_counted() {
    assert_eq!(extract_json_object("{\"a\":\"}\"}"), Some("{\"a\":\"}".to_string()));
}

#[test]
fn strips_tagged_fence() {
    assert_eq!(strip_code_fence("```json\n{\"a\":1}\n```"), "{\"a\":1}");
}

#[test]
fn strips_plain_fence() {
    assert_eq!(strip_code_fence("```\n {} \n```"), "{}");
}

#[test]
fn short_or_open_fence_is_kept() {
    assert_eq!(strip_code_fence("```"), "```");
    assert_eq!(strip_code_fence("`````"), "`````");
    assert_eq!(strip_code_fence("```json {}"), "```json {}");
    assert_eq!(strip_code_fence(" ```{}```"), " ```{}```");
}

#[test]
fn six_backticks_become_empty() {
    assert_eq!(strip_code_fence("``````"), "");
}
