//! Document handling for an assembly language server.

pub mod answers;
pub mod commands;
pub mod diagnostics;
pub mod documents;
pub mod edits;
pub mod filter;
pub mod handle;
pub mod laws;
pub mod lines;
pub mod params;
pub mod path;
pub mod places;
pub mod protocol;
pub mod reading;
pub mod store;
pub mod syntax;
pub mod text;
pub mod uri;
