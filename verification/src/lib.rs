//! Verified core of the TinyVox dictation assistant: the dictation and
//! voice-command state machines, the correction dictionary, dictation
//! statistics, tool requests, cleanup validation and the small codecs
//! that the platform layers rely on.

pub mod agent;
pub mod audio;
pub mod cleanup;
pub mod cli;
pub mod controller;
pub mod dictionary;
pub mod event;
pub mod gemini;
pub mod last_dictation;
pub mod ports;
pub mod state;
pub mod stats;
pub mod store;
pub mod sync;
pub mod text;
pub mod tool_registry;
pub mod tools;
pub mod voice;
pub mod win;
