//! A desktop pet and its chat agent: the control protocol between them, the
//! pet's input handling, behavior scheduling and speech bubbles, and the
//! agent's conversation, memory, providers and speech, with their contracts.
use vstd::prelude::*;

pub mod audio;
pub mod autostart;
pub mod behavior;
pub mod character;
pub mod config;
pub mod conversation;
pub mod input_window;
pub mod ipc;
pub mod json;
pub mod mapper;
pub mod memory;
pub mod memory_view;
pub mod piper;
pub mod pointer;
pub mod presentation;
pub mod prompt;
pub mod protocol;
pub mod provider;
pub mod rng;
pub mod session;
pub mod speech;
pub mod status;
pub mod text;
pub mod tts;

verus! {

} // verus!
