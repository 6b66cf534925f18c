//! What is read from configuration documents: language descriptions,
//! project configuration and run files.

pub mod document;
pub mod languagefile;
pub mod spaceworkfile;
pub mod runfile;
