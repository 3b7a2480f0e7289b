//! Typed representation of the data the pipeline works on.

pub mod github;
