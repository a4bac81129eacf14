//! Verified core of an LLM-backed personal wiki: shell-command policy,
//! agent planning and tool parsing, LLM stream accumulation, and the text
//! transformations used when reading, indexing and exporting wiki pages.
use vstd::prelude::*;

pub mod agent_chat;
pub mod banner;
pub mod browser;
pub mod cli;
pub mod clip;
pub mod engine;
pub mod agent_loop;
pub mod agent_runtime;
pub mod agent_policy;
pub mod agent_tools;
pub mod graph;
pub mod html_text;
pub mod json;
pub mod kernel;
pub mod lint;
pub mod llm;
pub mod mempalace;
pub mod models;
pub mod ollama;
pub mod store;
pub mod pattern;
pub mod projection;
pub mod registry;
pub mod research;
pub mod search;
pub mod stream;
pub mod text;
pub mod unicode;
pub mod wiki_core;

verus! {

} // verus!
