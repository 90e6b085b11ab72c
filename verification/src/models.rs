//! Native execution: which executor runs a request, and how it is driven.

use vstd::prelude::*;

pub mod backend;
pub mod decoder_state;
pub mod dispatch;
pub mod executor;
pub mod identity;
pub mod options;
pub mod registry;
pub mod request;
pub mod whisper;

verus! {

} // verus!
