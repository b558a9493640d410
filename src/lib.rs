//! Core of a sandboxed build service for untrusted contract sources:
//! input screening, workspace staging plans, job identity and artifact
//! naming, output framing for streamed responses, and admission control.

pub mod text;
pub mod admission;
pub mod files;
pub mod jobs;
pub mod identity;
pub mod manifest;
pub mod models;
pub mod naming;
pub mod pipeline;
pub mod sandbox;
pub mod validate;
pub mod workspace;
