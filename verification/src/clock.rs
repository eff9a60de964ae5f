//! Calendar time as the console reports it.

use vstd::prelude::*;

verus! {

/// A point in time, broken down to the second.
#[derive(Clone, Copy, Debug)]
pub struct DateTime {
    pub year: u16,
    pub month: u8,
    pub day: u8,
    pub hour: u8,
    pub minute: u8,
    pub second: u8,
}

} // verus!
