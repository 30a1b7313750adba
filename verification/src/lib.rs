//! Shell-prompt segment generator for version-control status.
//!
//! The library parses a line-oriented status report into a [`status::GitInfo`]
//! aggregate and renders that aggregate into a branch label and a styled
//! diff-summary label with a fixed component order.

pub mod paint;
pub mod render;
pub mod status;
pub mod text;
