//! Driving OpenZFS's `zfs` and `zpool` tools: names, argument lists,
//! and the reading of what the tools print.
use vstd::prelude::*;

pub mod arc;
pub mod args;
pub mod dataset;
pub mod encryption;
pub mod error;
pub mod models;
pub mod names;
pub mod pool;
pub mod protect;
pub mod recv;
pub mod resume_token;
pub mod runner;
pub mod send;
pub mod sorting;
pub mod strmap;
pub mod text;

verus! {
} // verus!
