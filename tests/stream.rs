use rust_git_cli::json::JsonValue;
use rust_git_cli::stream::{chunk_content, parse_streaming_response};

#[test]
fn test_parse_streaming_response() {
    let sse_response = r#"data: {"id":"chatcmpl-1766389658588","object":"chat.completion.chunk","created":1766389658,"model":"gemini-3-flash","choices":[{"index":0,"delta":{"content":"{\"type\":\"feat\",\"scope\":\"excel\",\"description\":\"新增资金调节表特殊"},"finish_reason":null}]}

data: {"id":"chatcmpl-1766389658588","object":"chat.completion.chunk","created":1766389658,"model":"gemini-3-flash","choices":[{"index":0,"delta":{"content":"识别逻辑\",\"description_en\":\"Add special identification logic\"}"},"finish_reason":null}]}

data: {"id":"chatcmpl-1766389658588","object":"chat.completion.chunk","created":1766389658,"model":"gemini-3-flash","choices":[{"index":0,"delta":{},"finish_reason":"stop"}],"usage":{"prompt_tokens":1404,"completion_tokens":107,"total_tokens":1511}}

data: [DONE]"#;

    let result = parse_streaming_response(sse_response);
    assert!(result.is_some());
    let content = result.unwrap();
    assert!(content.contains(r#""type":"feat""#));
    assert!(content.contains(r#""scope":"excel""#));
    assert!(content.contains("新增资金调节表特殊"));
    assert!(content.contains("识别逻辑"));
}

#[test]
fn test_parse_streaming_response_returns_none_for_non_sse() {
    let normal_response =
        r#"{"choices":[{"message":{"content":"hello"},"finish_reason":"stop"}]}"#;
    let result = parse_streaming_response(normal_response);
    assert!(result.is_none());
}

#[test]
fn test_parse_streaming_response_handles_empty_deltas() {
    let sse_response = r#"data: {"id":"test","choices":[{"index":0,"delta":{"content":"hello"},"finish_reason":null}]}

data: {"id":"test","choices":[{"index":0,"delta":{},"finish_reason":"stop"}]}

data: [DONE]"#;

    let result = parse_streaming_response(sse_response);
    assert!(result.is_some());
    assert_eq!(result.unwrap(), "hello");
}

#[test]
fn stream_concatenates_chunks_in_order() {
    let text = "data: {\"choices\":[{\"delta\":{\"content\":\"ab\"}}]}\ndata: {\"choices\":[{\"delta\":{\"content\":\"cd\"}}]}\ndata: {\"choices\":[{\"delta\":{\"content\":\"ef\"}}]}\ndata: [DONE]";
    assert_eq!(parse_streaming_response(text), Some("abcdef".to_string()));
}

#[test]
fn stream_joins_several_choices_of_one_chunk() {
    let text = "data: {\"choices\":[{\"delta\":{\"content\":\"x\"}},{\"delta\":{\"content\":\"y\"}}]}\r\ndata: [DONE]\r\n";
    assert_eq!(parse_streaming_response(text), Some("xy".to_string()));
}

#[test]
fn stream_without_data_lines_is_not_a_stream() {
    assert_eq!(parse_streaming_response("hello\nworld"), None);
    assert_eq!(parse_streaming_response(""), None);
}

#[test]
fn stream_with_only_done_is_not_a_stream() {
    assert_eq!(parse_streaming_response("data: [DONE]"), None);
}

#[test]
fn stream_skips_lines_that_are_not_chunks() {
    let text = "  data: {\"choices\":[{\"delta\":{\"content\":\"ok\"}}]}  \ndata: not json\ndata: {\"choices\":[{\"delta\":{\"content\":5}}]}\n: comment\ndata: [DONE]";
    assert_eq!(parse_streaming_response(text), Some("ok".to_string()));
}

#[test]
fn chunk_with_malformed_finish_reason_is_ignored() {
    let text = "data: {\"choices\":[{\"delta\":{\"content\":\"a\"},\"finish_reason\":3}]}\ndata: {\"choices\":[{\"delta\":{\"content\":\"b\"}}]}";
    assert_eq!(parse_streaming_response(text), Some("b".to_string()));
}

#[test]
fn chunk_content_on_a_built_value() {
    let delta = JsonValue::Object(vec![("content".to_string(), JsonValue::Str("hi".to_string()))]);
    let choice = JsonValue::Object(vec![("delta".to_string(), delta)]);
    let chunk = JsonValue::Object(vec![("choices".to_string(), JsonValue::Array(vec![choice]))]);
    assert_eq!(chunk_content(&chunk), Some("hi".to_string()));
    assert_eq!(chunk_content(&JsonValue::Null), None);
}
