//! Core of a coverage-guided, generator-based fuzzing orchestrator.
//!
//! A *Source* process is mutated at compile-inserted patch points to produce
//! candidate outputs; a *Sink* process consumes them and reports an
//! edge-coverage bitmap.  This crate holds the data structures and decision
//! logic of the per-worker fuzzing loop: coverage bitmaps with new-bit
//! detection, the mutation cache, the queue of coverage-yielding entries, the
//! cross-worker patch-point knowledge base, phase candidate selection, the
//! worker state machine, and the campaign restart policy.

use vstd::prelude::*;

pub mod campaign;
pub mod cerebrum;
pub mod codec;
pub mod config;
pub mod config_builder;
pub mod config_emit;
pub mod config_sections;
pub mod id_set;
pub mod mutation_cache;
pub mod phases;
pub mod queue;
pub mod sink_bitmap;
pub mod trace;
pub mod yaml;
pub mod worker;

verus! {

/// Number of bytes in a coverage bitmap.
pub const BITMAP_DEFAULT_MAP_SIZE: usize = 65536;

/// Smoothing constant for the rolling average of observed execution times.
pub const AVG_EXECUTION_TIME_STABILIZATION_VALUE: u32 = 50;

/// Upper bound on how many crashed workers a campaign will replace.
pub const MAX_WORKER_RESTART_CNT: usize = 12;

} // verus!
