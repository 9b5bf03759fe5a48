//! The configured providers, and the sessions they start.
use vstd::prelude::*;
use crate::git::CommitInfo;
use crate::json::same_text;
use crate::prompt::{
    ChangelogContext, CommitContext, build_changelog_prompt, build_prompt, changelog_prompt,
    commit_prompt,
};
use crate::provider::{GenerationError, GenerationErrorView, ProviderKind};
use crate::session::{COMMIT_ATTEMPTS, GenerationSession, SessionView, Target};
use crate::schema::owned;
use crate::text::{lower_of, lowercase, push_all};

verus! {

/// The default endpoint root of an OpenAI-style provider.
pub const OPENAI_BASE_URL: &'static str = "https://api.openai.com/v1";

/// The default endpoint root of an Anthropic-style provider.
pub const ANTHROPIC_BASE_URL: &'static str = "https://api.anthropic.com";

/// Settings for an OpenAI-style provider.
#[derive(Debug, Clone, PartialEq)]
pub struct OpenAIClient {
    pub api_key: String,
    pub model: String,
    pub base_url: String,
    pub initial_max_tokens: u32,
}

/// Settings for an Anthropic-style provider.
#[derive(Debug, Clone, PartialEq)]
pub struct AnthropicClient {
    pub api_key: String,
    pub model: String,
    pub base_url: String,
    pub initial_max_tokens: u32,
}

pub open spec fn base_or(base_url: Option<String>, default: Seq<char>) -> Seq<char> {
    match base_url {
        Some(b) => b@,
        None => default,
    }
}

fn base_or_exec(base_url: Option<String>, default: &str) -> (r: String)
    ensures
        r@ == base_or(base_url, default@),
{
    match base_url {
        Some(b) => b,
        None => owned(default),
    }
}

impl OpenAIClient {
    pub fn new(api_key: String, model: String, base_url: Option<String>, initial_max_tokens: u32) -> (r: Self)
        ensures
            r.api_key == api_key,
            r.model == model,
            r.base_url@ == base_or(base_url, OPENAI_BASE_URL@),
            r.initial_max_tokens == initial_max_tokens,
    {
        OpenAIClient {
            api_key,
            model,
            base_url: base_or_exec(base_url, OPENAI_BASE_URL),
            initial_max_tokens,
        }
    }

    /// The URL requests are posted to.
    pub fn endpoint(&self) -> (r: String)
        ensures
            r@ == self.base_url@ + "/chat/completions"@,
    {
        let mut s = self.base_url.clone();
        push_all(&mut s, "/chat/completions");
        s
    }
}

impl AnthropicClient {
    pub fn new(api_key: String, model: String, base_url: Option<String>, initial_max_tokens: u32) -> (r: Self)
        ensures
            r.api_key == api_key,
            r.model == model,
            r.base_url@ == base_or(base_url, ANTHROPIC_BASE_URL@),
            r.initial_max_tokens == initial_max_tokens,
    {
        AnthropicClient {
            api_key,
            model,
            base_url: base_or_exec(base_url, ANTHROPIC_BASE_URL),
            initial_max_tokens,
        }
    }

    /// The URL requests are posted to.
    pub fn endpoint(&self) -> (r: String)
        ensures
            r@ == self.base_url@ + "/v1/messages"@,
    {
        let mut s = self.base_url.clone();
        push_all(&mut s, "/v1/messages");
        s
    }
}

/// The configured provider.
#[derive(Debug, Clone, PartialEq)]
pub enum AIClient {
    OpenAI(OpenAIClient),
    Anthropic(AnthropicClient),
}

/// The provider a lower-cased name selects.
pub open spec fn provider_named(lowered: Seq<char>) -> Option<ProviderKind> {
    if lowered == "openai"@ {
        Some(ProviderKind::OpenAI)
    } else if lowered == "anthropic"@ {
        Some(ProviderKind::Anthropic)
    } else {
        None
    }
}

/// The provider a lower-cased name selects.
pub fn provider_kind(lowered: &str) -> (r: Option<ProviderKind>)
    ensures
        r == provider_named(lowered@),
{
    if same_text(lowered, "openai") {
        Some(ProviderKind::OpenAI)
    } else if same_text(lowered, "anthropic") {
        Some(ProviderKind::Anthropic)
    } else {
        None
    }
}

/// Builds the client for a provider named case-insensitively `openai` or
/// `anthropic`; any other name is refused.
pub fn create_client(
    provider: &str,
    api_key: String,
    model: String,
    base_url: Option<String>,
    max_tokens: u32,
) -> (r: Result<AIClient, GenerationError>)
    ensures
        match provider_named(lower_of(provider@)) {
            Some(ProviderKind::OpenAI) => r matches Ok(AIClient::OpenAI(c)) && c.api_key == api_key
                && c.model == model && c.base_url@ == base_or(base_url, OPENAI_BASE_URL@)
                && c.initial_max_tokens == max_tokens,
            Some(ProviderKind::Anthropic) => r matches Ok(AIClient::Anthropic(c)) && c.api_key
                == api_key && c.model == model && c.base_url@ == base_or(
                base_url,
                ANTHROPIC_BASE_URL@,
            ) && c.initial_max_tokens == max_tokens,
            None => r matches Err(e) && e@ == GenerationErrorView::UnsupportedProvider(
                provider@,
            ),
        },
{
    let lowered = lowercase(provider);
    match provider_kind(lowered.as_str()) {
        Some(ProviderKind::OpenAI) => Ok(
            AIClient::OpenAI(OpenAIClient::new(api_key, model, base_url, max_tokens)),
        ),
        Some(ProviderKind::Anthropic) => Ok(
            AIClient::Anthropic(AnthropicClient::new(api_key, model, base_url, max_tokens)),
        ),
        None => Err(GenerationError::UnsupportedProvider(owned(provider))),
    }
}

impl AIClient {
    pub open spec fn kind(&self) -> ProviderKind {
        match self {
            AIClient::OpenAI(_) => ProviderKind::OpenAI,
            AIClient::Anthropic(_) => ProviderKind::Anthropic,
        }
    }

    pub open spec fn model_spec(&self) -> Seq<char> {
        match self {
            AIClient::OpenAI(c) => c.model@,
            AIClient::Anthropic(c) => c.model@,
        }
    }

    pub open spec fn initial_tokens(&self) -> u32 {
        match self {
            AIClient::OpenAI(c) => c.initial_max_tokens,
            AIClient::Anthropic(c) => c.initial_max_tokens,
        }
    }

    /// A commit-message generation for `diff`: up to `COMMIT_ATTEMPTS`
    /// attempts with an OpenAI-style provider, one with an Anthropic-style one.
    pub fn commit_session(&self, diff: &str, context: &CommitContext) -> (r: GenerationSession)
        ensures
            r@ == (SessionView {
                provider: self.kind(),
                target: Target::Commit,
                model: self.model_spec(),
                prompt: commit_prompt(diff@, *context),
                max_tokens: self.initial_tokens(),
                attempt: 0,
                max_attempts: match self.kind() {
                    ProviderKind::OpenAI => COMMIT_ATTEMPTS,
                    ProviderKind::Anthropic => 1,
                },
            }),
    {
        let prompt = build_prompt(diff, context);
        match self {
            AIClient::OpenAI(c) => GenerationSession::new(
                ProviderKind::OpenAI,
                Target::Commit,
                c.model.clone(),
                prompt,
                c.initial_max_tokens,
                COMMIT_ATTEMPTS,
            ),
            AIClient::Anthropic(c) => GenerationSession::new(
                ProviderKind::Anthropic,
                Target::Commit,
                c.model.clone(),
                prompt,
                c.initial_max_tokens,
                1,
            ),
        }
    }

    /// A changelog generation for `commits`: a single attempt.
    pub fn changelog_session(&self, commits: &[CommitInfo], context: &ChangelogContext) -> (r:
        GenerationSession)
        ensures
            r@ == (SessionView {
                provider: self.kind(),
                target: Target::Changelog,
                model: self.model_spec(),
                prompt: changelog_prompt(commits@, *context),
                max_tokens: self.initial_tokens(),
                attempt: 0,
                max_attempts: 1,
            }),
    {
        let prompt = build_changelog_prompt(commits, context);
        match self {
            AIClient::OpenAI(c) => GenerationSession::new(
                ProviderKind::OpenAI,
                Target::Changelog,
                c.model.clone(),
                prompt,
                c.initial_max_tokens,
                1,
            ),
            AIClient::Anthropic(c) => GenerationSession::new(
                ProviderKind::Anthropic,
                Target::Changelog,
                c.model.clone(),
                prompt,
                c.initial_max_tokens,
                1,
            ),
        }
    }
}

} // verus!
