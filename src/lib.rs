//! Verified core of a progressive path tracer: the order in which pixels are
//! sampled, the per-pixel accumulation buffer, the pass schedule of a render
//! run, and the sampling settings.
use vstd::prelude::*;

pub mod accumulate;
pub mod pixels;
pub mod schedule;
pub mod settings;

verus! {

} // verus!
