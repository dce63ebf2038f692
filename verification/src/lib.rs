//! Deterministic planning for chains of dependent pull requests.

pub mod command;
pub mod error;
pub mod github;
pub mod graph;
pub mod json;
pub mod model;
pub mod required_runs;
pub mod text;
pub mod text_laws;
