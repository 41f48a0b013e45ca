//! Verified core of the local transcript-enhancement layer.
pub mod text;
pub mod words;
pub mod verify;
pub mod engine;
pub mod protocol;
pub mod prompt;
pub mod enhance;
pub mod catalog;
pub mod manager;
pub mod commands;
