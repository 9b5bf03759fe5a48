//! Bilingual commit-message and changelog generation: the response pipeline.
use vstd::prelude::*;

pub mod client;
pub mod config;
pub mod extract;
pub mod git;
pub mod json;
pub mod prompt;
pub mod provider;
pub mod render;
pub mod schema;
pub mod session;
pub mod stream;
pub mod text;

verus! {

} // verus!
