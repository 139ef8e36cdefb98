//! tmux-otg: a small, read-only viewer that tails allowlisted tmux sessions to a
//! browser.
//!
//! Security model in one breath: only sessions named `public-insecure-*` are ever
//! exposed, there are no input, control or shell endpoints, and tmux is only ever
//! asked to list sessions or to capture a pane, with explicit arguments.
//!
//! This crate holds the rules: which names are exposed, what tmux is asked and
//! what its answers mean, which capturers run, and what each endpoint answers.

pub mod config;
pub mod http;
pub mod hub;
pub mod json;
pub mod pages;
pub mod startup;
pub mod text;
pub mod tmux;
pub mod validation;
