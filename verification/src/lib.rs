//! Core logic of a desktop coding agent: command safety screening, tool-call
//! extraction from model replies, text shaping for tool output, streaming
//! response assembly, and the session/settings/skill records.

pub mod text;
pub mod bash_safety;
pub mod web;
pub mod json;
pub mod tool_parser;
pub mod tools;
pub mod shell;
pub mod sort;
pub mod search;
pub mod deepseek;
pub mod context;
pub mod session;
pub mod settings;
pub mod skills;
pub mod events;
pub mod sandbox;
pub mod mcp;
