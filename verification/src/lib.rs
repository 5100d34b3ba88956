//! A certification suite for a GPU relational kernel provider, as verified scenarios.
//!
//! Every test is a [`script::Script`]: a list of requests to the device and of checks on what
//! came back. A [`machine::Machine`] walks a script: it hands out one request at a time, takes
//! the reply, and ends in a verdict. The modules under [`categories`] hold the scripts. [`walk`]
//! states what holds of every script, and the modules under [`laws`] what single tests demand of
//! the device.

use vstd::prelude::*;

pub mod categories;
pub mod columns;
pub mod expr;
pub mod harness;
pub mod laws;
pub mod machine;
pub mod memory;
pub mod message;
pub mod ptx;
pub mod render;
pub mod scalar;
pub mod script;
pub mod stage;
pub mod tables;
pub mod walk;

verus! {

} // verus!
