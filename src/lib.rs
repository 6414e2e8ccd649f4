//! Early boot segmentation and loader-memory reclamation for an x86_64 kernel.
//!
//! The privileged instructions (loading the table register, the far return, page-table
//! writes) stay with the caller; this library computes what they are handed and decides
//! each step, with every decision stated and proved.
use vstd::prelude::*;

pub mod gdt;
pub mod paging;
pub mod reclaim;
pub mod segment;

verus! {

} // verus!
