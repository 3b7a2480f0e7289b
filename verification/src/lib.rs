//! Ingestion pipeline for newline-delimited GitHub activity events.
//!
//! The crate decides; it does not read or write. A run is a
//! [`extract::pipeline::Pipeline`]: it says what is to be read or written
//! next and is told what came of it.

use vstd::prelude::*;
use crate::extract::pipeline::{first_turn, Pipeline, Turn};

pub mod extract;
pub mod model;
pub mod stable_sort;
pub mod text;

verus! {

/// What a run is asked to do.
#[derive(Debug, Clone)]
pub struct Config {
    /// The folder that holds the input files.
    pub path_to_data: String,
    /// Count lines only: decode, filter, count and write nothing.
    pub dry_run: bool,
    /// Show the counts by event type when the files are done.
    pub show_stats: bool,
    /// Keep only events of the type with this name.
    pub event_type_filter: Option<String>,
    /// Write the kept events to this file.
    pub output_file: Option<String>,
    /// Say nothing of progress; warnings and errors are still said.
    pub quiet_mode: bool,
}

/// Begins a run. The turn that comes back says what is to be done first;
/// [`Pipeline::step`] takes it from there, reply by reply, until a turn asks
/// to finish.
pub fn run(config: Config) -> (turn: Turn)
    ensures
        turn.pipeline.config == config,
        turn.deep_view() == first_turn(config),
        turn.pipeline.wf(),
{
    Pipeline::start(config)
}

} // verus!
