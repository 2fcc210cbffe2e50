//! Device and queue selection plus presentation-surface lifecycle management,
//! expressed over plain capability values so every decision is verified.
//!
//! The crate models the hardware-facing data (feature flags, queue family
//! capabilities, surface capabilities, sample-count masks, handles) as plain
//! integers, booleans and strings.  Selection heuristics, swapchain planning
//! and the acquire/present/recreate state machine all live here with full
//! functional contracts; an embedding binary performs the actual driver calls
//! and feeds their results back in as events.

use vstd::prelude::*;

pub mod device;
pub mod features;
pub mod format;
pub mod instance;
pub mod multisample;
pub mod queue;
pub mod surface;
pub mod swapchain;

verus! {

/// The number of nanoseconds in five seconds. Used for bounded timeouts on
/// synchronization waits so a hung device surfaces as an error, never a hang.
pub const FIVE_SECONDS_IN_NANOSECONDS: u64 = 5_000_000_000;

/// Check if a list of extension names contains a specific extension name.
pub fn extensions_list_contains(list: &Vec<String>, ext: &String) -> (r: bool)
    ensures
        r == exists|i: int| 0 <= i < list@.len() && list@[i]@ == ext@,
{
    let mut j: usize = 0;
    while j < list.len()
        invariant
            j <= list@.len(),
            forall|i: int| 0 <= i < j ==> list@[i]@ != ext@,
        decreases list@.len() - j,
    {
        if list[j] == *ext {
            return true;
        }
        j += 1;
    }
    false
}

} // verus!
