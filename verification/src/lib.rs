//! Workspace resolution and language configuration for a per-language
//! project workspace: where projects live, how a project records its
//! language, and how that record becomes a build command.

pub mod command;
pub mod config;
pub mod error;
pub mod path;
pub mod registry;
pub mod spacework;
pub mod text;
