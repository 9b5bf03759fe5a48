//! What a provider's reply means: status codes, response envelopes and the
//! completion signal.
use vstd::prelude::*;
use crate::json::{JsonValue, find_member, member, parse_json, json_document, same_text};
use crate::schema::{SchemaError, SchemaErrorView, opt_text};
use crate::stream::{parse_streaming_response, stream_payload};

verus! {

/// The two provider families.
#[derive(Debug, PartialEq, Eq, Structural, Clone, Copy)]
pub enum ProviderKind {
    OpenAI,
    Anthropic,
}

/// Why a reply stopped, as the provider reports it.
#[derive(Debug, Clone, PartialEq)]
pub enum CompletionSignal {
    Stop,
    Length,
    ContentFiltered,
    Unknown(String),
    Absent,
}

pub enum CompletionSignalView {
    Stop,
    Length,
    ContentFiltered,
    Unknown(Seq<char>),
    Absent,
}

impl View for CompletionSignal {
    type V = CompletionSignalView;

    open spec fn view(&self) -> CompletionSignalView {
        match self {
            CompletionSignal::Stop => CompletionSignalView::Stop,
            CompletionSignal::Length => CompletionSignalView::Length,
            CompletionSignal::ContentFiltered => CompletionSignalView::ContentFiltered,
            CompletionSignal::Unknown(s) => CompletionSignalView::Unknown(s@),
            CompletionSignal::Absent => CompletionSignalView::Absent,
        }
    }
}

/// Everything that can end a generation without a result.
#[derive(Debug, Clone, PartialEq)]
pub enum GenerationError {
    /// HTTP 401.
    Auth(u16),
    /// HTTP 403.
    Permission(u16),
    /// HTTP 429.
    RateLimited(u16),
    /// HTTP 5xx.
    UpstreamService(ProviderKind, u16),
    /// Any other status that is not a success.
    GenericRequest(u16),
    /// The request could not be sent, or the reply could not be read.
    Transport(String),
    /// The reply body is not the provider's response envelope.
    MalformedResponse(ProviderKind),
    /// The envelope holds no choice or content block.
    EmptyResponse(ProviderKind),
    /// The first choice's content is null.
    NullContent,
    /// The last attempt was truncated and left no text.
    TruncatedEmpty,
    /// The last attempt was truncated before the JSON was complete.
    Truncated,
    /// The provider's content filter blocked the reply.
    ContentFiltered,
    /// The provider reported a completion reason that is not known here.
    UnexpectedFinishReason(String),
    /// Neither the reply nor the object found in it is a valid record.
    SchemaParse { snippet: String, primary: SchemaError, extracted: SchemaError },
    /// The reply is not a valid record and holds no balanced object.
    NoExtractableJson { snippet: String, primary: SchemaError },
    /// The configured provider name is not known.
    UnsupportedProvider(String),
}

pub enum GenerationErrorView {
    Auth(u16),
    Permission(u16),
    RateLimited(u16),
    UpstreamService(ProviderKind, u16),
    GenericRequest(u16),
    Transport(Seq<char>),
    MalformedResponse(ProviderKind),
    EmptyResponse(ProviderKind),
    NullContent,
    TruncatedEmpty,
    Truncated,
    ContentFiltered,
    UnexpectedFinishReason(Seq<char>),
    SchemaParse { snippet: Seq<char>, primary: SchemaErrorView, extracted: SchemaErrorView },
    NoExtractableJson { snippet: Seq<char>, primary: SchemaErrorView },
    UnsupportedProvider(Seq<char>),
}

impl View for GenerationError {
    type V = GenerationErrorView;

    open spec fn view(&self) -> GenerationErrorView {
        match self {
            GenerationError::Auth(c) => GenerationErrorView::Auth(*c),
            GenerationError::Permission(c) => GenerationErrorView::Permission(*c),
            GenerationError::RateLimited(c) => GenerationErrorView::RateLimited(*c),
            GenerationError::UpstreamService(p, c) => GenerationErrorView::UpstreamService(*p, *c),
            GenerationError::GenericRequest(c) => GenerationErrorView::GenericRequest(*c),
            GenerationError::Transport(s) => GenerationErrorView::Transport(s@),
            GenerationError::MalformedResponse(p) => GenerationErrorView::MalformedResponse(*p),
            GenerationError::EmptyResponse(p) => GenerationErrorView::EmptyResponse(*p),
            GenerationError::NullContent => GenerationErrorView::NullContent,
            GenerationError::TruncatedEmpty => GenerationErrorView::TruncatedEmpty,
            GenerationError::Truncated => GenerationErrorView::Truncated,
            GenerationError::ContentFiltered => GenerationErrorView::ContentFiltered,
            GenerationError::UnexpectedFinishReason(s) => GenerationErrorView::UnexpectedFinishReason(
                s@,
            ),
            GenerationError::SchemaParse { snippet, primary, extracted } => {
                GenerationErrorView::SchemaParse {
                    snippet: snippet@,
                    primary: primary@,
                    extracted: extracted@,
                }
            },
            GenerationError::NoExtractableJson { snippet, primary } => {
                GenerationErrorView::NoExtractableJson { snippet: snippet@, primary: primary@ }
            },
            GenerationError::UnsupportedProvider(s) => GenerationErrorView::UnsupportedProvider(
                s@,
            ),
        }
    }
}

/// The error a status code that is not a success stands for.
pub open spec fn status_error(provider: ProviderKind, code: u16) -> GenerationErrorView {
    if code == 401 {
        GenerationErrorView::Auth(code)
    } else if code == 403 {
        GenerationErrorView::Permission(code)
    } else if code == 429 {
        GenerationErrorView::RateLimited(code)
    } else if 500 <= code <= 599 {
        GenerationErrorView::UpstreamService(provider, code)
    } else {
        GenerationErrorView::GenericRequest(code)
    }
}

/// Maps a failed HTTP status to the error taxonomy.
pub fn classify_status(provider: ProviderKind, code: u16) -> (r: GenerationError)
    ensures
        r@ == status_error(provider, code),
{
    if code == 401 {
        GenerationError::Auth(code)
    } else if code == 403 {
        GenerationError::Permission(code)
    } else if code == 429 {
        GenerationError::RateLimited(code)
    } else if 500 <= code && code <= 599 {
        GenerationError::UpstreamService(provider, code)
    } else {
        GenerationError::GenericRequest(code)
    }
}

/// The signal an OpenAI-style `finish_reason` stands for.
pub open spec fn signal_of(reason: Option<Seq<char>>) -> CompletionSignalView {
    match reason {
        None => CompletionSignalView::Absent,
        Some(r) => if r == "length"@ {
            CompletionSignalView::Length
        } else if r == "content_filter"@ {
            CompletionSignalView::ContentFiltered
        } else if r == "stop"@ || r == "stop_sequence"@ {
            CompletionSignalView::Stop
        } else {
            CompletionSignalView::Unknown(r)
        },
    }
}

/// Reads an OpenAI-style `finish_reason`.
pub fn completion_signal(reason: Option<&str>) -> (r: CompletionSignal)
    ensures
        r@ == signal_of(
            match reason {
                Some(s) => Some(s@),
                None => None,
            },
        ),
{
    match reason {
        None => CompletionSignal::Absent,
        Some(r) => if same_text(r, "length") {
            CompletionSignal::Length
        } else if same_text(r, "content_filter") {
            CompletionSignal::ContentFiltered
        } else if same_text(r, "stop") || same_text(r, "stop_sequence") {
            CompletionSignal::Stop
        } else {
            CompletionSignal::Unknown(crate::schema::owned(r))
        },
    }
}

/// A member that may be absent or null, or hold a string; `Err` otherwise.
pub open spec fn nullable_text(m: Option<JsonValue>) -> Result<Option<Seq<char>>, ()> {
    match m {
        None => Ok(None),
        Some(JsonValue::Null) => Ok(None),
        Some(JsonValue::Str(s)) => Ok(Some(s@)),
        Some(_) => Err(()),
    }
}

/// One OpenAI-style choice: its message content and its finish reason.
pub open spec fn openai_choice(c: JsonValue) -> Option<(Option<Seq<char>>, Option<Seq<char>>)> {
    match c {
        JsonValue::Object(cm) => match member(cm@, "message"@) {
            Some(JsonValue::Object(mm)) => match (
                nullable_text(member(mm@, "content"@)),
                nullable_text(member(cm@, "finish_reason"@)),
            ) {
                (Ok(content), Ok(reason)) => Some((content, reason)),
                _ => None,
            },
            _ => None,
        },
        _ => None,
    }
}

/// The text and signal an OpenAI-style envelope holds.
pub open spec fn openai_envelope(v: JsonValue) -> Result<
    (Seq<char>, CompletionSignalView),
    GenerationErrorView,
> {
    match v {
        JsonValue::Object(m) => match member(m@, "choices"@) {
            Some(JsonValue::Array(cs)) => if !(forall|i: int|
                0 <= i < cs@.len() ==> (#[trigger] openai_choice(cs@[i])) is Some) {
                Err(GenerationErrorView::MalformedResponse(ProviderKind::OpenAI))
            } else if cs@.len() == 0 {
                Err(GenerationErrorView::EmptyResponse(ProviderKind::OpenAI))
            } else {
                let first = openai_choice(cs@[0])->Some_0;
                match first.0 {
                    None => Err(GenerationErrorView::NullContent),
                    Some(t) => Ok((t, signal_of(first.1))),
                }
            },
            _ => Err(GenerationErrorView::MalformedResponse(ProviderKind::OpenAI)),
        },
        _ => Err(GenerationErrorView::MalformedResponse(ProviderKind::OpenAI)),
    }
}

/// One Anthropic-style content block: its text.
pub open spec fn anthropic_block(c: JsonValue) -> Option<Seq<char>> {
    match c {
        JsonValue::Object(cm) => match member(cm@, "text"@) {
            Some(JsonValue::Str(s)) => Some(s@),
            _ => None,
        },
        _ => None,
    }
}

/// The text an Anthropic-style envelope holds; its signal is always `Stop`.
pub open spec fn anthropic_envelope(v: JsonValue) -> Result<
    (Seq<char>, CompletionSignalView),
    GenerationErrorView,
> {
    match v {
        JsonValue::Object(m) => match member(m@, "content"@) {
            Some(JsonValue::Array(cs)) => if !(forall|i: int|
                0 <= i < cs@.len() ==> (#[trigger] anthropic_block(cs@[i])) is Some) {
                Err(GenerationErrorView::MalformedResponse(ProviderKind::Anthropic))
            } else if cs@.len() == 0 {
                Err(GenerationErrorView::EmptyResponse(ProviderKind::Anthropic))
            } else {
                Ok((anthropic_block(cs@[0])->Some_0, CompletionSignalView::Stop))
            },
            _ => Err(GenerationErrorView::MalformedResponse(ProviderKind::Anthropic)),
        },
        _ => Err(GenerationErrorView::MalformedResponse(ProviderKind::Anthropic)),
    }
}

/// The text and signal a successful reply body carries. An OpenAI-style body
/// is first tried as an event stream, which counts as a completed reply.
pub open spec fn reply_content(provider: ProviderKind, body: Seq<char>) -> Result<
    (Seq<char>, CompletionSignalView),
    GenerationErrorView,
> {
    match provider {
        ProviderKind::OpenAI => match stream_payload(body) {
            Some(p) => Ok((p, CompletionSignalView::Stop)),
            None => match json_document(body) {
                Some(v) => openai_envelope(v),
                None => Err(GenerationErrorView::MalformedResponse(ProviderKind::OpenAI)),
            },
        },
        ProviderKind::Anthropic => match json_document(body) {
            Some(v) => anthropic_envelope(v),
            None => Err(GenerationErrorView::MalformedResponse(ProviderKind::Anthropic)),
        },
    }
}

pub open spec fn reply_matches(
    r: Result<(String, CompletionSignal), GenerationError>,
    t: Result<(Seq<char>, CompletionSignalView), GenerationErrorView>,
) -> bool {
    match t {
        Ok((c, s)) => r matches Ok((x, y)) && x@ == c && y@ == s,
        Err(e) => r matches Err(x) && x@ == e,
    }
}

fn nullable_text_exec(m: Option<&JsonValue>) -> (r: Result<Option<String>, ()>)
    ensures
        match nullable_text(crate::schema::opt_node(m)) {
            Ok(t) => r matches Ok(s) && opt_text(s) == t,
            Err(_) => r is Err,
        },
{
    match m {
        None => Ok(None),
        Some(JsonValue::Null) => Ok(None),
        Some(JsonValue::Str(s)) => Ok(Some(s.clone())),
        Some(_) => Err(()),
    }
}

fn openai_choice_exec(c: &JsonValue) -> (r: Option<(Option<String>, Option<String>)>)
    ensures
        match openai_choice(*c) {
            Some((a, b)) => r matches Some((x, y)) && opt_text(x) == a && opt_text(y) == b,
            None => r is None,
        },
{
    let cm = match c {
        JsonValue::Object(cm) => cm,
        _ => {
            return None;
        },
    };
    let mm = match find_member(cm, "message") {
        Some(JsonValue::Object(mm)) => mm,
        _ => {
            return None;
        },
    };
    match (nullable_text_exec(find_member(mm, "content")), nullable_text_exec(find_member(cm, "finish_reason"))) {
        (Ok(content), Ok(reason)) => Some((content, reason)),
        _ => None,
    }
}

/// Reads an OpenAI-style response envelope.
pub fn openai_reply(v: &JsonValue) -> (r: Result<(String, CompletionSignal), GenerationError>)
    ensures
        reply_matches(r, openai_envelope(*v)),
{
    let m = match v {
        JsonValue::Object(m) => m,
        _ => {
            return Err(GenerationError::MalformedResponse(ProviderKind::OpenAI));
        },
    };
    let cs = match find_member(m, "choices") {
        Some(JsonValue::Array(cs)) => cs,
        _ => {
            return Err(GenerationError::MalformedResponse(ProviderKind::OpenAI));
        },
    };
    let mut first: Option<(Option<String>, Option<String>)> = None;
    let mut i: usize = 0;
    while i < cs.len()
        invariant
            i <= cs@.len(),
            *v == JsonValue::Object(*m),
            member(m@, "choices"@) == Some(JsonValue::Array(*cs)),
            forall|k: int| 0 <= k < i ==> (#[trigger] openai_choice(cs@[k])) is Some,
            i == 0 ==> first is None,
            i > 0 ==> match openai_choice(cs@[0]) {
                Some((a, b)) => first matches Some((x, y)) && opt_text(x) == a && opt_text(y)
                    == b,
                None => false,
            },
        decreases cs@.len() - i,
    {
        match openai_choice_exec(&cs[i]) {
            Some(pair) => {
                if i == 0 {
                    first = Some(pair);
                }
            },
            None => {
                assert(openai_choice(cs@[i as int]) is None);
                return Err(GenerationError::MalformedResponse(ProviderKind::OpenAI));
            },
        }
        i = i + 1;
    }
    match first {
        None => Err(GenerationError::EmptyResponse(ProviderKind::OpenAI)),
        Some((content, reason)) => match content {
            None => Err(GenerationError::NullContent),
            Some(t) => {
                let signal = match &reason {
                    Some(s) => completion_signal(Some(s.as_str())),
                    None => completion_signal(None),
                };
                Ok((t, signal))
            },
        },
    }
}

/// Reads an Anthropic-style response envelope.
pub fn anthropic_reply(v: &JsonValue) -> (r: Result<(String, CompletionSignal), GenerationError>)
    ensures
        reply_matches(r, anthropic_envelope(*v)),
{
    let m = match v {
        JsonValue::Object(m) => m,
        _ => {
            return Err(GenerationError::MalformedResponse(ProviderKind::Anthropic));
        },
    };
    let cs = match find_member(m, "content") {
        Some(JsonValue::Array(cs)) => cs,
        _ => {
            return Err(GenerationError::MalformedResponse(ProviderKind::Anthropic));
        },
    };
    let mut first: Option<String> = None;
    let mut i: usize = 0;
    while i < cs.len()
        invariant
            i <= cs@.len(),
            *v == JsonValue::Object(*m),
            member(m@, "content"@) == Some(JsonValue::Array(*cs)),
            forall|k: int| 0 <= k < i ==> (#[trigger] anthropic_block(cs@[k])) is Some,
            i == 0 ==> first is None,
            i > 0 ==> (first matches Some(x) && anthropic_block(cs@[0]) == Some(x@)),
        decreases cs@.len() - i,
    {
        let text = match &cs[i] {
            JsonValue::Object(cm) => match find_member(cm, "text") {
                Some(JsonValue::Str(s)) => s,
                _ => {
                    assert(anthropic_block(cs@[i as int]) is None);
                    return Err(GenerationError::MalformedResponse(ProviderKind::Anthropic));
                },
            },
            _ => {
                assert(anthropic_block(cs@[i as int]) is None);
                return Err(GenerationError::MalformedResponse(ProviderKind::Anthropic));
            },
        };
        if i == 0 {
            first = Some(text.clone());
        }
        i = i + 1;
    }
    match first {
        None => Err(GenerationError::EmptyResponse(ProviderKind::Anthropic)),
        Some(t) => Ok((t, CompletionSignal::Stop)),
    }
}

/// The text and completion signal of a successful reply body.
pub fn read_reply(provider: ProviderKind, body: &str) -> (r: Result<
    (String, CompletionSignal),
    GenerationError,
>)
    ensures
        reply_matches(r, reply_content(provider, body@)),
{
    match provider {
        ProviderKind::OpenAI => match parse_streaming_response(body) {
            Some(p) => Ok((p, CompletionSignal::Stop)),
            None => match parse_json(body) {
                Some(v) => openai_reply(&v),
                None => Err(GenerationError::MalformedResponse(ProviderKind::OpenAI)),
            },
        },
        ProviderKind::Anthropic => match parse_json(body) {
            Some(v) => anthropic_reply(&v),
            None => Err(GenerationError::MalformedResponse(ProviderKind::Anthropic)),
        },
    }
}

} // verus!
