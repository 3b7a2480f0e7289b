//! The stages of the pipeline: filtering, decoding files line by line,
//! counting and writing.

pub mod analysis;
pub mod filters;
pub mod json_lines;
pub mod pipeline;
