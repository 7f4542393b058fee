//! Orchestration core of a multi-agent execution runtime.

pub mod aggregate;
pub mod completion;
pub mod context;
pub mod directory;
pub mod laws;
pub mod model;
pub mod ordered;
pub mod outside;
pub mod registry;
pub mod router;
pub mod runs;
pub mod text;
