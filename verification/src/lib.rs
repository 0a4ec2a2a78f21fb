//! Editing, streaming and dialog logic of a terminal AI coding assistant.
use vstd::prelude::*;

pub mod app_state;
pub mod blocks;
pub mod cmark;
pub mod command_registry;
pub mod commands;
pub mod controller;
pub mod dialog;
pub mod groq;
pub mod json;
pub mod keys;
pub mod lines;
pub mod markdown;
pub mod models;
pub mod notification;
pub mod ollama;
pub mod openrouter;
pub mod profile;
pub mod prompt;
pub mod prompt_controller;
pub mod request;
pub mod response_area;
pub mod sse;
pub mod status;
pub mod styled;
pub mod system_prompt;
pub mod text;
pub mod text_area;
pub mod tool_defs;
pub mod tools;
pub mod web;

verus! {

} // verus!
