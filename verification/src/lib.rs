//! Conventional-commit tooling: a message parser and formatter, a version
//! increment classifier, and a commit-history resolver that computes the
//! current and next semantic version from a walk over the commit log.

pub mod changelog;
pub mod chars;
pub mod config;
pub mod convco;
pub mod error;
pub mod footer;
pub mod git;
pub mod grammar;
pub mod history;
pub mod hooks;
pub mod laws;
pub mod release;
pub mod version;
