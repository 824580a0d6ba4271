//! The code page tables: one 256-entry byte-to-scalar table per code page.
//!
//! Every entry is a scalar of the basic multilingual plane, or [`UNDEFINED`]
//! for a byte the code page leaves unassigned.

use vstd::prelude::*;

pub mod cp037;
pub mod cp1026;
pub mod cp1140;
pub mod cp273;
pub mod cp424;
pub mod cp500;
pub mod cp875;

verus! {

/// The table entry of a byte the code page leaves unassigned. No code page
/// maps a byte to this noncharacter.
pub const UNDEFINED: u16 = 0xffff;

} // verus!
