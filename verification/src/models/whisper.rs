//! Whisper on the batching server: which jobs share a batch, how one job is decoded, and
//! what it gives.

use vstd::prelude::*;

pub mod config;
pub mod error;
pub mod finish;
pub mod job;
pub mod serial;
pub mod slot;
pub mod state;

verus! {

} // verus!
