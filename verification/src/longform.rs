//! Long-form slice planning.

use vstd::prelude::*;

pub mod duration;
pub mod energy;
pub mod errors;
pub mod layout;
pub mod measures;
pub mod options;
pub mod packing;
pub mod plan;
pub mod planner;
pub mod provider;
pub mod reports;
pub mod scoring;
pub mod selection;
pub mod slices;
pub mod sorting;
pub mod spans;
pub mod timeline;
pub mod windows;

verus! {

} // verus!
