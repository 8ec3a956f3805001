use vstd::prelude::*;

pub mod text;
pub mod json;
pub mod chunker;
pub mod rerank;
pub mod eval;
pub mod speech;
pub mod models;
pub mod asr;
pub mod asr_catalog;
pub mod asr_backends;
pub mod asr_registry;
pub mod translate;
pub mod embedding;
pub mod wiki;
pub mod hyde;
pub mod project;
pub mod parser;
pub mod settings;
pub mod meeting;
pub mod memory;
pub mod mcp;
pub mod auditor;
pub mod contextualize;
pub mod skills;
pub mod rag;
pub mod crypto;
pub mod paths;
pub mod trace;
pub mod wiki_plan;
pub mod glossary;
pub mod market;
pub mod kanban;
pub mod skill_install;
pub mod llm;
pub mod asr_stream;
pub mod translate_cache;
pub mod retranscribe;
pub mod meeting_prompts;
pub mod builtin_agents;
pub mod usage;

verus! {
} // verus!
