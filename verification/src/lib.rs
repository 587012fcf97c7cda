//! Shashin: the state, rules and text of a keyboard-driven image viewer.

pub mod actions;
pub mod config;
pub mod gallery;
pub mod input;
pub mod mcp;
pub mod metadata;
pub mod path;
pub mod render;
pub mod platform;
pub mod scripting;
pub mod sort;
pub mod text;
pub mod viewer;
