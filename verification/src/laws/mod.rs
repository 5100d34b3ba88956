//! Laws of single tests: what the device has to answer for them to pass.

pub mod again;
pub mod asked;
pub mod batches;
pub mod blocks;
pub mod bounds;
pub mod budget;
pub mod caches;
pub mod chains;
pub mod completion;
pub mod concurrent;
pub mod counting;
pub mod cycles;
pub mod dependencies;
pub mod determinism;
pub mod devices;
pub mod duplicates;
pub mod endurance;
pub mod errors;
pub mod extents;
pub mod filtering;
pub mod grids;
pub mod isolation;
pub mod joins;
pub mod keys;
pub mod lanes;
pub mod layers;
pub mod locality;
pub mod masks;
pub mod number_edges;
pub mod numbers;
pub mod order;
pub mod patterns;
pub mod pipelines;
pub mod predicates;
pub mod pressure;
pub mod primary;
pub mod queries;
pub mod reading;
pub mod repeats;
pub mod reproduction;
pub mod resolution;
pub mod reuse;
pub mod samples;
pub mod searching;
pub mod selections;
pub mod sizes;
pub mod sorting;
pub mod special;
pub mod steps;
pub mod streams;
pub mod stress;
pub mod table_joins;
pub mod tiles;
pub mod toolchain;
pub mod traffic;
pub mod transfers;
pub mod types;
pub mod warps;
pub mod words;
