//! The decisions of a speech recogniser: how a long recording is cut into slices, and
//! how a native executor is chosen, bound and driven.

use vstd::prelude::*;

pub mod longform;
pub mod models;
pub mod text;

verus! {

} // verus!
