//! Terminal front end of a remote text buffer: a local line cache kept in
//! step with the editor engine, a viewport over it, the rendering of the
//! visible lines into terminal output, and the translation of key chords
//! and clicks into editing commands.

pub mod text;
pub mod event;
pub mod keys;
pub mod command;
pub mod client;
pub mod line;
pub mod op;
pub mod term;
pub mod style;
pub mod window;
pub mod cache;
pub mod render;
pub mod weave;
pub mod view;
pub mod command_prompt;
pub mod config;
pub mod views;
pub mod editor;
