//! The workspace itself: where it is, what creating a project in it
//! takes, and its history of actions.

pub mod history;
pub mod language;
pub mod workspace;
