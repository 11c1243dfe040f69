//! Verified core of the Kome toolchain: standard library discovery and
//! module loading decisions, and go-to-definition lookup for the language
//! server.

pub mod ast;
pub mod paths;
pub mod text;
pub mod stdlib;
pub mod search;
pub mod semantics;
pub mod lsp;
pub mod kome_lsp;
pub mod platform;
