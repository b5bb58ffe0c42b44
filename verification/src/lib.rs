//! Similarity search over rhythm-game charts.
//!
//! A chart is an ordered list of timed, positioned gameplay objects plus
//! descriptive metadata.  The library reduces each chart to a fixed-length
//! vector of eight weighted pattern ratios, orchestrates the per-file
//! pipeline that feeds those vectors to an external nearest-neighbour
//! index, and answers "plays like" queries by re-extracting the query
//! chart's vector and filtering the index's answer.
//!
//! All ratios are kept as exact rationals, so extraction is deterministic
//! and every feature value is pinned down by its contract.  The external
//! collaborators (the text parser and the vector index) sit behind narrow
//! trusted interfaces; everything else is verified.

pub mod config;
pub mod features;
pub mod indexer;
pub mod model;
pub mod parser;
pub mod searcher;
pub mod web;
