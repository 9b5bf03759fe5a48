use rust_git_cli::client::{create_client, AIClient};
use rust_git_cli::prompt::{ChangelogContext, CommitContext};
use rust_git_cli::provider::{
    classify_status, completion_signal, CompletionSignal, GenerationError, ProviderKind,
};
use rust_git_cli::schema::SchemaError;
use rust_git_cli::session::{GenerationSession, HttpOutcome, Step, Target};

fn context() -> CommitContext {
    CommitContext { branch_name: Some("main".to_string()), file_count: 1, added_lines: 2, removed_lines: 0 }
}

fn openai() -> AIClient {
    create_client("openai", "k".to_string(), "m".to_string(), None, 500).unwrap()
}

fn reply(body: &str) -> HttpOutcome {
    HttpOutcome::Reply { status: 200, body: body.to_string() }
}

fn openai_body(content: &str, reason: &str) -> String {
    let escaped = content.replace('\\', "\\\\").replace('"', "\\\"").replace('\n', "\\n");
    format!("{{\"choices\":[{{\"message\":{{\"content\":\"{}\"}},\"finish_reason\":\"{}\"}}]}}", escaped, reason)
}

#[test]
fn four_truncations_end_in_truncated_error() {
    let client = openai();
    let mut s = client.commit_session("diff", &context());
    let mut sends = 0;
    let mut budgets = Vec::new();
    let outcome = loop {
        let req = s.request();
        budgets.push(req.max_tokens);
        sends += 1;
        match s.on_commit_outcome(&reply(&openai_body("{\"type\":\"fe", "length"))) {
            Step::Retry => continue,
            Step::Done(r) => break r,
        }
    };
    assert_eq!(sends, 4);
    assert_eq!(budgets, vec![500, 1000, 2000, 4000]);
    assert_eq!(outcome.unwrap_err(), GenerationError::Truncated);
}

#[test]
fn last_empty_truncation_is_reported_as_empty() {
    let mut s = GenerationSession::new(ProviderKind::OpenAI, Target::Commit, "m".to_string(), "p".to_string(), 100, 1);
    match s.on_commit_outcome(&reply(&openai_body("  ", "length"))) {
        Step::Done(Err(e)) => assert_eq!(e, GenerationError::TruncatedEmpty),
        _ => panic!("expected failure"),
    }
}

#[test]
fn retry_adds_corrective_message() {
    let client = openai();
    let mut s = client.commit_session("diff", &context());
    assert_eq!(s.request().messages.len(), 2);
    assert!(matches!(s.on_commit_outcome(&reply(&openai_body("", "length"))), Step::Retry));
    let req = s.request();
    assert_eq!(req.messages.len(), 3);
    assert_eq!(req.messages[1].role, "system");
    assert!(req.messages[1].content.contains("truncated"));
    assert_eq!(req.max_tokens, 1000);
    assert_eq!(s.attempt(), 1);
}

#[test]
fn budget_is_capped() {
    let client = create_client("OpenAI", "k".to_string(), "m".to_string(), None, 3000).unwrap();
    let mut s = client.commit_session("d", &context());
    assert!(matches!(s.on_commit_outcome(&reply(&openai_body("", "length"))), Step::Retry));
    assert_eq!(s.max_tokens(), 4000);
}

#[test]
fn complete_reply_yields_commit_message() {
    let client = openai();
    let mut s = client.commit_session("d", &context());
    let body = openai_body("```json\n{\"type\":\"feat\",\"description\":\"d\"}\n```", "stop");
    match s.on_commit_outcome(&reply(&body)) {
        Step::Done(Ok(m)) => {
            assert_eq!(m.commit_type, "feat");
            assert_eq!(m.description, "d");
        }
        other => panic!("unexpected {:?}", other),
    }
}

#[test]
fn decorated_reply_falls_back_to_extraction() {
    let mut s = openai().commit_session("d", &context());
    let body = openai_body("Sure! {\"type\":\"fix\",\"description\":\"x\"} Done.", "stop");
    match s.on_commit_outcome(&reply(&body)) {
        Step::Done(Ok(m)) => assert_eq!(m.commit_type, "fix"),
        other => panic!("unexpected {:?}", other),
    }
}

#[test]
fn unbalanced_reply_is_not_extractable() {
    let mut s = openai().commit_session("d", &context());
    let body = openai_body("{\"type\":\"fix\",\"description\":\"x\"", "stop");
    match s.on_commit_outcome(&reply(&body)) {
        Step::Done(Err(GenerationError::NoExtractableJson { primary, snippet })) => {
            assert_eq!(primary, SchemaError::InvalidJson);
            assert_eq!(snippet, "{\"type\":\"fix\",\"description\":\"x\"");
        }
        other => panic!("unexpected {:?}", other),
    }
}

#[test]
fn extracted_object_that_is_not_a_record_chains_both_errors() {
    let mut s = openai().commit_session("d", &context());
    let body = openai_body("note {\"type\":\"fix\"} end", "stop");
    match s.on_commit_outcome(&reply(&body)) {
        Step::Done(Err(GenerationError::SchemaParse { primary, extracted, .. })) => {
            assert_eq!(primary, SchemaError::InvalidJson);
            assert_eq!(extracted, SchemaError::MissingField("description".to_string()));
        }
        other => panic!("unexpected {:?}", other),
    }
}

#[test]
fn content_filter_and_unknown_reason_fail() {
    let mut s = openai().commit_session("d", &context());
    match s.on_commit_outcome(&reply(&openai_body("{}", "content_filter"))) {
        Step::Done(Err(e)) => assert_eq!(e, GenerationError::ContentFiltered),
        other => panic!("unexpected {:?}", other),
    }
    match s.on_commit_outcome(&reply(&openai_body("{}", "weird"))) {
        Step::Done(Err(e)) => assert_eq!(e, GenerationError::UnexpectedFinishReason("weird".to_string())),
        other => panic!("unexpected {:?}", other),
    }
}

#[test]
fn http_failures_map_to_taxonomy() {
    let mut s = openai().commit_session("d", &context());
    let fail = |s: &mut GenerationSession, status: u16| match s.on_commit_outcome(&HttpOutcome::Reply { status, body: "secret".to_string() }) {
        Step::Done(Err(e)) => e,
        other => panic!("unexpected {:?}", other),
    };
    assert_eq!(fail(&mut s, 401), GenerationError::Auth(401));
    assert_eq!(fail(&mut s, 403), GenerationError::Permission(403));
    assert_eq!(fail(&mut s, 429), GenerationError::RateLimited(429));
    assert_eq!(fail(&mut s, 503), GenerationError::UpstreamService(ProviderKind::OpenAI, 503));
    assert_eq!(fail(&mut s, 404), GenerationError::GenericRequest(404));
    assert_eq!(classify_status(ProviderKind::Anthropic, 500), GenerationError::UpstreamService(ProviderKind::Anthropic, 500));
    match s.on_commit_outcome(&HttpOutcome::Transport("timeout".to_string())) {
        Step::Done(Err(e)) => assert_eq!(e, GenerationError::Transport("timeout".to_string())),
        other => panic!("unexpected {:?}", other),
    }
}

#[test]
fn malformed_envelopes() {
    let mut s = openai().commit_session("d", &context());
    let done = |s: &mut GenerationSession, b: &str| match s.on_commit_outcome(&reply(b)) {
        Step::Done(Err(e)) => e,
        other => panic!("unexpected {:?}", other),
    };
    assert_eq!(done(&mut s, "garbage"), GenerationError::MalformedResponse(ProviderKind::OpenAI));
    assert_eq!(done(&mut s, "{\"choices\":[]}"), GenerationError::EmptyResponse(ProviderKind::OpenAI));
    assert_eq!(done(&mut s, "{\"choices\":[{\"message\":{\"content\":null}}]}"), GenerationError::NullContent);
}

#[test]
fn streamed_reply_counts_as_complete() {
    let mut s = openai().commit_session("d", &context());
    let body = "data: {\"choices\":[{\"delta\":{\"content\":\"{\\\"type\\\":\\\"feat\\\",\"}}]}\ndata: {\"choices\":[{\"delta\":{\"content\":\"\\\"description\\\":\\\"s\\\"}\"}}]}\ndata: [DONE]";
    match s.on_commit_outcome(&reply(body)) {
        Step::Done(Ok(m)) => assert_eq!(m.description, "s"),
        other => panic!("unexpected {:?}", other),
    }
}

#[test]
fn anthropic_single_attempt_reads_first_block() {
    let client = create_client("Anthropic", "k".to_string(), "sonnet-model".to_string(), None, 800).unwrap();
    let mut s = client.commit_session("d", &context());
    let req = s.request();
    assert_eq!(req.messages.len(), 1);
    assert!(req.messages[0].content.ends_with("Please respond with only the JSON object, no other text."));
    let body = "{\"content\":[{\"type\":\"text\",\"text\":\"{\\\"type\\\":\\\"chore\\\",\\\"description\\\":\\\"c\\\"}\"}]}";
    match s.on_commit_outcome(&reply(body)) {
        Step::Done(Ok(m)) => assert_eq!(m.commit_type, "chore"),
        other => panic!("unexpected {:?}", other),
    }
    match s.on_commit_outcome(&reply("{\"content\":[]}")) {
        Step::Done(Err(e)) => assert_eq!(e, GenerationError::EmptyResponse(ProviderKind::Anthropic)),
        other => panic!("unexpected {:?}", other),
    }
}

#[test]
fn changelog_session_is_single_attempt() {
    let client = openai();
    let mut s = client.changelog_session(&[], &ChangelogContext { total_commits: 0, date_range: None });
    assert_eq!(s.request().messages.len(), 2);
    match s.on_changelog_outcome(&reply(&openai_body("", "length"))) {
        Step::Done(Err(e)) => assert_eq!(e, GenerationError::TruncatedEmpty),
        other => panic!("unexpected {:?}", other),
    }
    let body = openai_body("{\"title\":\"t\",\"title_en\":\"T\",\"highlights\":[],\"highlights_en\":[],\"categories\":{}}", "stop");
    match s.on_changelog_outcome(&reply(&body)) {
        Step::Done(Ok(c)) => assert_eq!(c.title_en, "T"),
        other => panic!("unexpected {:?}", other),
    }
}

#[test]
fn finish_reasons_map_to_signals() {
    assert_eq!(completion_signal(Some("length")), CompletionSignal::Length);
    assert_eq!(completion_signal(Some("stop_sequence")), CompletionSignal::Stop);
    assert_eq!(completion_signal(None), CompletionSignal::Absent);
}

#[test]
fn provider_names_are_case_insensitive() {
    assert!(matches!(create_client("OPENAI", "k".into(), "m".into(), None, 1), Ok(AIClient::OpenAI(_))));
    assert!(matches!(create_client("AnThRoPiC", "k".into(), "m".into(), Some("http://x".into()), 1), Ok(AIClient::Anthropic(c)) if c.base_url == "http://x"));
    assert_eq!(
        create_client("Gemini", "k".into(), "m".into(), None, 1).err(),
        Some(GenerationError::UnsupportedProvider("Gemini".to_string()))
    );
}

#[test]
fn default_endpoints() {
    match openai() {
        AIClient::OpenAI(c) => assert_eq!(c.endpoint(), "https://api.openai.com/v1/chat/completions"),
        _ => panic!(),
    }
    match create_client("anthropic", "k".into(), "m".into(), None, 1).unwrap() {
        AIClient::Anthropic(c) => assert_eq!(c.endpoint(), "https://api.anthropic.com/v1/messages"),
        _ => panic!(),
    }
}
