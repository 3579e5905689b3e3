//! Package-tooling detection and command planning for JavaScript, Python,
//! Rust and container projects.
pub mod text;
pub mod model;
pub mod manager;
pub mod cli;
pub mod seqs;
pub mod operations;
pub mod plan;
pub mod order;
pub mod output;
pub mod json;
pub mod maps;
pub mod manifests;
pub mod paths;
pub mod components;
pub mod cargo;
pub mod detect;
pub mod observe;
pub mod dispatch;
