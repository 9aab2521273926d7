//! The error taxonomy of each stage.

pub mod bag;
pub mod compiler;
pub mod fileio;
pub mod runtime;
