//! Core of a LaTeX preview editor: a verified compilation pipeline.
//!
//! The library turns raw document source into a paginated preview by
//! orchestrating external tools (typesetter, bibliography processor,
//! page-image converter).  Everything that decides — pass budgets,
//! rerun detection, timeout policy, diagnostic sanitization, the
//! single-flight job queue and the final page markup — is verified
//! here; the surrounding process and file plumbing stays outside and
//! drives the state machines defined in these modules.

pub mod api;
pub mod arxiv;
pub mod config;
pub mod digits;
pub mod pipeline;
pub mod preview;
pub mod process;
pub mod queue;
pub mod sanitize;
pub mod text;
