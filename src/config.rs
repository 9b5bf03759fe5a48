//! The tool's settings.
use vstd::prelude::*;
use crate::schema::owned;

verus! {

/// The settings file's two tables.
#[derive(Debug, Clone, PartialEq)]
pub struct Config {
    pub ai: AIConfig,
    pub commit: CommitConfig,
}

/// Which provider and model to use, and how to find the key.
#[derive(Debug, Clone, PartialEq)]
pub struct AIConfig {
    pub provider: String,
    pub model: String,
    pub api_key_env: String,
    pub api_key: Option<String>,
    pub base_url: Option<String>,
    pub max_tokens: u32,
}

/// How commits are made.
#[derive(Debug, Clone, PartialEq)]
pub struct CommitConfig {
    pub format: String,
    pub include_emoji: bool,
    pub max_diff_size: usize,
    pub auto_stage: bool,
}

/// The token budget when the settings name none.
pub fn default_max_tokens() -> (r: u32)
    ensures
        r == 2000,
{
    2000
}

impl Default for Config {
    fn default() -> (r: Config)
        ensures
            r.ai.provider@ == "openai"@,
            r.ai.model@ == "gpt-4.1"@,
            r.ai.api_key_env@ == "OPENAI_API_KEY"@,
            r.ai.api_key is None,
            r.ai.base_url is None,
            r.ai.max_tokens == 2000,
            r.commit.format@ == "conventional"@,
            !r.commit.include_emoji,
            r.commit.max_diff_size == 10000,
            !r.commit.auto_stage,
    {
        Config {
            ai: AIConfig {
                provider: owned("openai"),
                model: owned("gpt-4.1"),
                api_key_env: owned("OPENAI_API_KEY"),
                api_key: None,
                base_url: None,
                max_tokens: 2000,
            },
            commit: CommitConfig {
                format: owned("conventional"),
                include_emoji: false,
                max_diff_size: 10000,
                auto_stage: false,
            },
        }
    }
}

impl Config {
    /// The key to use: the one the settings hold, else the value of the
    /// environment variable they name (`from_env`, as the caller read it).
    pub fn get_api_key(&self, from_env: Option<String>) -> (r: Option<String>)
        ensures
            r == match self.ai.api_key {
                Some(k) => Some(k),
                None => from_env,
            },
    {
        match &self.ai.api_key {
            Some(key) => Some(key.clone()),
            None => from_env,
        }
    }
}

} // verus!
