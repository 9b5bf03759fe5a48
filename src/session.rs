//! One generation as a state machine: the caller sends the request the
//! session describes, hands back what came of it, and is told whether to send
//! again or what the outcome is.
use vstd::prelude::*;
use crate::extract::{extract_json_object, object_text, strip_code_fence, strip_fence};
use crate::provider::{
    CompletionSignal, CompletionSignalView, GenerationError, GenerationErrorView, ProviderKind,
    classify_status, read_reply, reply_content, status_error,
};
use crate::schema::{
    SchemaErrorView, ChangelogSummary, ChangelogSummaryView, CommitMessage, CommitMessageView, changelog_from_text,
    commit_from_text, owned,
};
use crate::text::{chars_of, push_all, string_of, trimmed, trim_bounds};

verus! {

/// The longest token budget a retry asks for.
pub const MAX_TOKEN_BUDGET: u32 = 4000;

/// How many attempts a commit message gets from an OpenAI-style provider.
pub const COMMIT_ATTEMPTS: u32 = 4;

/// How many characters of an unreadable reply an error keeps.
pub const SNIPPET_CHARS: usize = 200;

/// The system message of an OpenAI-style commit request.
pub const COMMIT_SYSTEM: &'static str = "You are a helpful assistant that generates git commit messages in JSON format. Reply with exactly one valid, minified JSON object.";

/// The system message added on every attempt after a truncated one.
pub const RETRY_NOTE: &'static str = "Your previous answer was truncated. Send the complete JSON object this time, keep it under 600 characters, and avoid any commentary or markdown fences.";

/// The system message of an OpenAI-style changelog request.
pub const CHANGELOG_SYSTEM: &'static str = "You are a helpful assistant that generates changelog summaries in JSON format. Reply with exactly one valid, minified JSON object.";

/// What an Anthropic-style request appends to the prompt.
pub const ANTHROPIC_SUFFIX: &'static str = "\n\nPlease respond with only the JSON object, no other text.";

/// What the session generates.
#[derive(Debug, PartialEq, Eq, Structural, Clone, Copy)]
pub enum Target {
    Commit,
    Changelog,
}

/// One message of a chat request.
#[derive(Debug, Clone, PartialEq)]
pub struct ChatMessage {
    pub role: String,
    pub content: String,
}

/// The request for one attempt.
#[derive(Debug, Clone, PartialEq)]
pub struct ChatRequest {
    pub model: String,
    pub max_tokens: u32,
    pub messages: Vec<ChatMessage>,
}

pub struct ChatRequestView {
    pub model: Seq<char>,
    pub max_tokens: u32,
    pub messages: Seq<(Seq<char>, Seq<char>)>,
}

impl View for ChatRequest {
    type V = ChatRequestView;

    open spec fn view(&self) -> ChatRequestView {
        ChatRequestView {
            model: self.model@,
            max_tokens: self.max_tokens,
            messages: self.messages@.map_values(|m: ChatMessage| (m.role@, m.content@)),
        }
    }
}

/// The messages of the request for the attempt now due, as (role, content).
pub open spec fn request_messages(s: SessionView) -> Seq<(Seq<char>, Seq<char>)> {
    match s.provider {
        ProviderKind::OpenAI => match s.target {
            Target::Commit => seq![("system"@, COMMIT_SYSTEM@)] + (if s.attempt > 0 {
                seq![("system"@, RETRY_NOTE@)]
            } else {
                Seq::empty()
            }) + seq![("user"@, s.prompt)],
            Target::Changelog => seq![("system"@, CHANGELOG_SYSTEM@), ("user"@, s.prompt)],
        },
        ProviderKind::Anthropic => seq![("user"@, s.prompt + ANTHROPIC_SUFFIX@)],
    }
}

fn message(role: &str, content: &str) -> (r: ChatMessage)
    ensures
        r.role@ == role@,
        r.content@ == content@,
{
    ChatMessage { role: owned(role), content: owned(content) }
}

/// What came of sending a request.
#[derive(Debug, Clone, PartialEq)]
pub enum HttpOutcome {
    /// The request could not be sent or its reply not read.
    Transport(String),
    /// The provider answered with this status and body.
    Reply { status: u16, body: String },
}

/// What the caller does next.
#[derive(Debug, PartialEq)]
pub enum Step<T> {
    /// Send `request()` again: the session has moved to the next attempt.
    Retry,
    /// The generation is over.
    Done(Result<T, GenerationError>),
}

/// The state of one generation.
pub struct GenerationSession {
    provider: ProviderKind,
    target: Target,
    model: String,
    prompt: String,
    max_tokens: u32,
    attempt: u32,
    max_attempts: u32,
}

pub struct SessionView {
    pub provider: ProviderKind,
    pub target: Target,
    pub model: Seq<char>,
    pub prompt: Seq<char>,
    pub max_tokens: u32,
    pub attempt: u32,
    pub max_attempts: u32,
}

impl View for GenerationSession {
    type V = SessionView;

    closed spec fn view(&self) -> SessionView {
        SessionView {
            provider: self.provider,
            target: self.target,
            model: self.model@,
            prompt: self.prompt@,
            max_tokens: self.max_tokens,
            attempt: self.attempt,
            max_attempts: self.max_attempts,
        }
    }
}

/// The budget after a truncated attempt: doubled, at most `MAX_TOKEN_BUDGET`.
pub open spec fn grown_budget(t: u32) -> u32 {
    if 2 * t >= MAX_TOKEN_BUDGET {
        MAX_TOKEN_BUDGET
    } else {
        (2 * t) as u32
    }
}

/// What the session decides on one outcome.
pub enum Decision {
    /// Send again, with this token budget.
    Retry(u32),
    /// The reply is complete; read the record from this text.
    Proceed(Seq<char>),
    /// The generation fails.
    Fail(GenerationErrorView),
}

pub enum OutcomeView {
    Transport(Seq<char>),
    Reply { status: u16, body: Seq<char> },
}

impl View for HttpOutcome {
    type V = OutcomeView;

    open spec fn view(&self) -> OutcomeView {
        match self {
            HttpOutcome::Transport(s) => OutcomeView::Transport(s@),
            HttpOutcome::Reply { status, body } => OutcomeView::Reply {
                status: *status,
                body: body@,
            },
        }
    }
}

/// The decision on an outcome, in the state `s`: a transport failure or a
/// status that is not a success fails at once; a reply is read and its
/// completion signal decides. A truncated reply is retried with a grown
/// budget while attempts remain; on the last attempt it fails.
pub open spec fn decide(s: SessionView, o: OutcomeView) -> Decision {
    match o {
        OutcomeView::Transport(m) => Decision::Fail(GenerationErrorView::Transport(m)),
        OutcomeView::Reply { status, body } => if !(200 <= status <= 299) {
            Decision::Fail(status_error(s.provider, status))
        } else {
            match reply_content(s.provider, body) {
                Err(e) => Decision::Fail(e),
                Ok((content, signal)) => match signal {
                    CompletionSignalView::Stop => Decision::Proceed(content),
                    CompletionSignalView::Absent => Decision::Proceed(content),
                    CompletionSignalView::ContentFiltered => Decision::Fail(
                        GenerationErrorView::ContentFiltered,
                    ),
                    CompletionSignalView::Unknown(r) => Decision::Fail(
                        GenerationErrorView::UnexpectedFinishReason(r),
                    ),
                    CompletionSignalView::Length => if s.attempt + 1 < s.max_attempts {
                        Decision::Retry(grown_budget(s.max_tokens))
                    } else if trimmed(content).len() == 0 {
                        Decision::Fail(GenerationErrorView::TruncatedEmpty)
                    } else {
                        Decision::Fail(GenerationErrorView::Truncated)
                    },
                },
            }
        },
    }
}

/// The first `SNIPPET_CHARS` characters of `s`.
pub open spec fn snippet_of(s: Seq<char>) -> Seq<char> {
    if s.len() <= SNIPPET_CHARS {
        s
    } else {
        s.take(SNIPPET_CHARS as int)
    }
}

/// Reading a commit message from a complete reply: the fence is stripped and
/// the text read directly; failing that, the first balanced object in it is
/// read; failing that too, both errors are kept.
pub open spec fn commit_extraction(content: Seq<char>) -> Result<
    CommitMessageView,
    GenerationErrorView,
> {
    let clean = strip_fence(content);
    match commit_from_text(clean) {
        Ok(m) => Ok(m),
        Err(primary) => match object_text(clean) {
            None => Err(
                GenerationErrorView::NoExtractableJson { snippet: snippet_of(clean), primary },
            ),
            Some(obj) => match commit_from_text(obj) {
                Ok(m) => Ok(m),
                Err(extracted) => Err(
                    GenerationErrorView::SchemaParse {
                        snippet: snippet_of(clean),
                        primary,
                        extracted,
                    },
                ),
            },
        },
    }
}

/// Reading a changelog from a complete reply, by the same stages.
pub open spec fn changelog_extraction(content: Seq<char>) -> Result<
    ChangelogSummaryView,
    GenerationErrorView,
> {
    let clean = strip_fence(content);
    match changelog_from_text(clean) {
        Ok(m) => Ok(m),
        Err(primary) => match object_text(clean) {
            None => Err(
                GenerationErrorView::NoExtractableJson { snippet: snippet_of(clean), primary },
            ),
            Some(obj) => match changelog_from_text(obj) {
                Ok(m) => Ok(m),
                Err(extracted) => Err(
                    GenerationErrorView::SchemaParse {
                        snippet: snippet_of(clean),
                        primary,
                        extracted,
                    },
                ),
            },
        },
    }
}

fn snippet(s: &str) -> (r: String)
    ensures
        r@ == snippet_of(s@),
{
    let cs = chars_of(s);
    if cs.len() <= SNIPPET_CHARS {
        assert(cs@.subrange(0, cs@.len() as int) =~= cs@);
        string_of(&cs, 0, cs.len())
    } else {
        string_of(&cs, 0, SNIPPET_CHARS)
    }
}

/// Reads a commit message from a complete reply.
pub fn extract_commit(content: &str) -> (r: Result<CommitMessage, GenerationError>)
    ensures
        match commit_extraction(content@) {
            Ok(t) => r matches Ok(m) && m@ == t,
            Err(e) => r matches Err(x) && x@ == e,
        },
{
    let clean = strip_code_fence(content);
    match CommitMessage::from_json_text(clean.as_str()) {
        Ok(m) => Ok(m),
        Err(primary) => match extract_json_object(clean.as_str()) {
            None => Err(
                GenerationError::NoExtractableJson { snippet: snippet(clean.as_str()), primary },
            ),
            Some(obj) => match CommitMessage::from_json_text(obj.as_str()) {
                Ok(m) => Ok(m),
                Err(extracted) => Err(
                    GenerationError::SchemaParse {
                        snippet: snippet(clean.as_str()),
                        primary,
                        extracted,
                    },
                ),
            },
        },
    }
}

/// Reads a changelog from a complete reply.
pub fn extract_changelog(content: &str) -> (r: Result<ChangelogSummary, GenerationError>)
    ensures
        match changelog_extraction(content@) {
            Ok(t) => r matches Ok(m) && m@ == t,
            Err(e) => r matches Err(x) && x@ == e,
        },
{
    let clean = strip_code_fence(content);
    match ChangelogSummary::from_json_text(clean.as_str()) {
        Ok(m) => Ok(m),
        Err(primary) => match extract_json_object(clean.as_str()) {
            None => Err(
                GenerationError::NoExtractableJson { snippet: snippet(clean.as_str()), primary },
            ),
            Some(obj) => match ChangelogSummary::from_json_text(obj.as_str()) {
                Ok(m) => Ok(m),
                Err(extracted) => Err(
                    GenerationError::SchemaParse {
                        snippet: snippet(clean.as_str()),
                        primary,
                        extracted,
                    },
                ),
            },
        },
    }
}

/// Whether `s` is empty once trimmed.
fn blank(s: &str) -> (r: bool)
    ensures
        r == (trimmed(s@).len() == 0),
{
    let cs = chars_of(s);
    let (lo, hi) = trim_bounds(&cs, 0, cs.len());
    assert(cs@.subrange(0, cs@.len() as int) =~= cs@);
    lo == hi
}

/// The decision's executable form.
enum Verdict {
    Retry(u32),
    Proceed(String),
    Fail(GenerationError),
}

spec fn verdict_matches(v: Verdict, d: Decision) -> bool {
    match d {
        Decision::Retry(t) => v == Verdict::Retry(t),
        Decision::Proceed(c) => v matches Verdict::Proceed(x) && x@ == c,
        Decision::Fail(e) => v matches Verdict::Fail(x) && x@ == e,
    }
}

impl GenerationSession {
    #[verifier::type_invariant]
    spec fn well_formed(&self) -> bool {
        1 <= self.max_attempts && self.attempt < self.max_attempts
    }

    /// A session at its first attempt.
    pub fn new(
        provider: ProviderKind,
        target: Target,
        model: String,
        prompt: String,
        max_tokens: u32,
        max_attempts: u32,
    ) -> (r: GenerationSession)
        requires
            max_attempts >= 1,
        ensures
            r@ == (SessionView {
                provider,
                target,
                model: model@,
                prompt: prompt@,
                max_tokens,
                attempt: 0,
                max_attempts,
            }),
    {
        GenerationSession { provider, target, model, prompt, max_tokens, attempt: 0, max_attempts }
    }

    /// The attempt now due, counted from zero.
    pub fn attempt(&self) -> (r: u32)
        ensures
            r == self@.attempt,
            r < self@.max_attempts,
    {
        proof {
            use_type_invariant(self);
        }
        self.attempt
    }

    /// The token budget of the attempt now due.
    pub fn max_tokens(&self) -> (r: u32)
        ensures
            r == self@.max_tokens,
    {
        self.max_tokens
    }

    /// The provider the session talks to.
    pub fn provider(&self) -> (r: ProviderKind)
        ensures
            r == self@.provider,
    {
        self.provider
    }

    /// The request for the attempt now due.
    pub fn request(&self) -> (r: ChatRequest)
        ensures
            r@ == (ChatRequestView {
                model: self@.model,
                max_tokens: self@.max_tokens,
                messages: request_messages(self@),
            }),
    {
        let mut messages: Vec<ChatMessage> = Vec::new();
        match self.provider {
            ProviderKind::OpenAI => match self.target {
                Target::Commit => {
                    messages.push(message("system", COMMIT_SYSTEM));
                    if self.attempt > 0 {
                        messages.push(message("system", RETRY_NOTE));
                    }
                    messages.push(message("user", self.prompt.as_str()));
                },
                Target::Changelog => {
                    messages.push(message("system", CHANGELOG_SYSTEM));
                    messages.push(message("user", self.prompt.as_str()));
                },
            },
            ProviderKind::Anthropic => {
                let mut content = self.prompt.clone();
                push_all(&mut content, ANTHROPIC_SUFFIX);
                messages.push(ChatMessage { role: owned("user"), content });
            },
        }
        let r = ChatRequest { model: self.model.clone(), max_tokens: self.max_tokens, messages };
        assert(r@.messages =~= request_messages(self@));
        r
    }

    fn decide_exec(&self, outcome: &HttpOutcome) -> (r: Verdict)
        ensures
            verdict_matches(r, decide(self@, outcome@)),
    {
        proof {
            use_type_invariant(self);
        }
        match outcome {
            HttpOutcome::Transport(m) => Verdict::Fail(GenerationError::Transport(m.clone())),
            HttpOutcome::Reply { status, body } => {
                if !(200 <= *status && *status <= 299) {
                    return Verdict::Fail(classify_status(self.provider, *status));
                }
                match read_reply(self.provider, body.as_str()) {
                    Err(e) => Verdict::Fail(e),
                    Ok((content, signal)) => match signal {
                        CompletionSignal::Stop => Verdict::Proceed(content),
                        CompletionSignal::Absent => Verdict::Proceed(content),
                        CompletionSignal::ContentFiltered => Verdict::Fail(
                            GenerationError::ContentFiltered,
                        ),
                        CompletionSignal::Unknown(r) => Verdict::Fail(
                            GenerationError::UnexpectedFinishReason(r),
                        ),
                        CompletionSignal::Length => {
                            if self.attempt + 1 < self.max_attempts {
                                let t = if self.max_tokens >= MAX_TOKEN_BUDGET / 2 {
                                    MAX_TOKEN_BUDGET
                                } else {
                                    self.max_tokens * 2
                                };
                                Verdict::Retry(t)
                            } else if blank(content.as_str()) {
                                Verdict::Fail(GenerationError::TruncatedEmpty)
                            } else {
                                Verdict::Fail(GenerationError::Truncated)
                            }
                        },
                    },
                }
            },
        }
    }

    fn advance(&mut self, t: u32)
        requires
            old(self)@.attempt + 1 < old(self)@.max_attempts,
        ensures
            final(self)@ == (SessionView {
                attempt: (old(self)@.attempt + 1) as u32,
                max_tokens: t,
                ..old(self)@
            }),
    {
        self.attempt = self.attempt + 1;
        self.max_tokens = t;
    }

    /// Takes what came of the commit-message request now due.
    pub fn on_commit_outcome(&mut self, outcome: &HttpOutcome) -> (r: Step<CommitMessage>)
        ensures
            match decide(old(self)@, outcome@) {
                Decision::Retry(t) => r is Retry && final(self)@ == (SessionView {
                    attempt: (old(self)@.attempt + 1) as u32,
                    max_tokens: t,
                    ..old(self)@
                }),
                Decision::Proceed(c) => final(self)@ == old(self)@ && (match commit_extraction(c) {
                    Ok(t) => r matches Step::Done(Ok(m)) && m@ == t,
                    Err(e) => r matches Step::Done(Err(x)) && x@ == e,
                }),
                Decision::Fail(e) => final(self)@ == old(self)@ && (r matches Step::Done(Err(x))
                    && x@ == e),
            },
    {
        match self.decide_exec(outcome) {
            Verdict::Retry(t) => {
                self.advance(t);
                Step::Retry
            },
            Verdict::Proceed(c) => Step::Done(extract_commit(c.as_str())),
            Verdict::Fail(e) => Step::Done(Err(e)),
        }
    }

    /// Takes what came of the changelog request now due.
    pub fn on_changelog_outcome(&mut self, outcome: &HttpOutcome) -> (r: Step<ChangelogSummary>)
        ensures
            match decide(old(self)@, outcome@) {
                Decision::Retry(t) => r is Retry && final(self)@ == (SessionView {
                    attempt: (old(self)@.attempt + 1) as u32,
                    max_tokens: t,
                    ..old(self)@
                }),
                Decision::Proceed(c) => final(self)@ == old(self)@ && (match changelog_extraction(c) {
                    Ok(t) => r matches Step::Done(Ok(m)) && m@ == t,
                    Err(e) => r matches Step::Done(Err(x)) && x@ == e,
                }),
                Decision::Fail(e) => final(self)@ == old(self)@ && (r matches Step::Done(Err(x))
                    && x@ == e),
            },
    {
        match self.decide_exec(outcome) {
            Verdict::Retry(t) => {
                self.advance(t);
                Step::Retry
            },
            Verdict::Proceed(c) => Step::Done(extract_changelog(c.as_str())),
            Verdict::Fail(e) => Step::Done(Err(e)),
        }
    }
}

/// A retry is decided only while attempts remain, so a generation sends at
/// most `max_attempts` requests; each retry asks for a grown budget, never
/// more than `MAX_TOKEN_BUDGET` (unless the budget started above it).
pub proof fn lemma_retry_bounded(s: SessionView, o: OutcomeView)
    ensures
        decide(s, o) matches Decision::Retry(t) ==> s.attempt + 1 < s.max_attempts && t
            == grown_budget(s.max_tokens) && t <= MAX_TOKEN_BUDGET,
{
}

/// A truncated reply on the last attempt fails: with text left it is a
/// truncation, with only white space left an empty truncation.
pub proof fn lemma_last_truncation_fails(s: SessionView, body: Seq<char>, content: Seq<char>)
    requires
        s.attempt + 1 >= s.max_attempts,
        reply_content(s.provider, body) == Ok::<(Seq<char>, CompletionSignalView), GenerationErrorView>((content, CompletionSignalView::Length)),
    ensures
        decide(s, OutcomeView::Reply { status: 200, body }) == if trimmed(content).len() == 0 {
            Decision::Fail(GenerationErrorView::TruncatedEmpty)
        } else {
            Decision::Fail(GenerationErrorView::Truncated)
        },
{
}

/// A complete reply that is not valid JSON and whose first object is cut off
/// before its braces balance ends the generation with the error that no JSON
/// could be extracted, carrying the reading error.
pub proof fn lemma_unbalanced_reply_not_extractable(pre: Seq<char>, partial: Seq<char>)
    requires
        forall|k: int| 0 <= k < pre.len() ==> pre[k] != '{' && pre[k] != '`',
        pre.len() > 0 || (partial.len() > 0 && partial[0] == '{'),
        partial.len() == 0 || partial[0] == '{',
        forall|j: int| 0 < j <= partial.len() ==> crate::extract::brace_depth(#[trigger] partial.take(j)) > 0,
        crate::json::json_document(pre + partial) is None,
    ensures
        commit_extraction(pre + partial) matches Err(GenerationErrorView::NoExtractableJson {
            primary: SchemaErrorView::InvalidJson,
            ..
        }),
        changelog_extraction(pre + partial) matches Err(GenerationErrorView::NoExtractableJson {
            primary: SchemaErrorView::InvalidJson,
            ..
        }),
{
    let c = pre + partial;
    if pre.len() > 0 {
        assert(c[0] == pre[0]);
    } else {
        assert(c[0] == partial[0]);
    }
    assert(!crate::extract::starts_with(c, crate::extract::fence())) by {
        if c.len() >= 3 {
            assert(c.take(3)[0] == c[0]);
        }
    }
    assert(!crate::extract::starts_with(c, crate::extract::json_fence())) by {
        if c.len() >= 7 {
            assert(c.take(7)[0] == c[0]);
        }
    }
    assert(strip_fence(c) == c);
    crate::extract::lemma_unbalanced_object_not_found(pre, partial);
}

} // verus!
