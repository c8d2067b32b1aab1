//! Metadata-provider logic for a comic library server: identifiers,
//! field keys, title sanitising, similarity measures, range mapping and
//! the apply decision matrix, each stated over a mathematical model.
#![allow(unused_imports)]

pub mod text;
pub mod unicode;
pub mod identifier;
pub mod field;
pub mod title_norm;
pub mod ratcliff;
pub mod phash;
pub mod matcher;
pub mod writers;
pub mod provider;
pub mod apply;
pub mod completeness;
pub mod cache;
pub mod refresh;
pub mod match_outcome;
pub mod orchestrator;
pub mod auto_split;
pub mod comicvine;
pub mod diff;
pub mod rate_limit;
pub mod middleware;
pub mod merge;
pub mod composite;
pub mod sidecar_compose;
pub mod metron;
pub mod range_map;
pub mod drift;
