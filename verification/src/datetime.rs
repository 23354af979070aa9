//! Plain calendar date and wall-clock time values.

use vstd::prelude::*;

verus! {

/// An object containing both date and time information.
#[derive(Debug, Clone, Copy, PartialEq, Eq, PartialOrd, Ord, Structural)]
pub struct DateTime(pub Date, pub Time);

/// Date information.
#[derive(Debug, Clone, Copy, PartialEq, Eq, PartialOrd, Ord, Structural)]
pub struct Date {
    pub year: u16,
    pub month: u8,
    pub day: u8,
}

/// Time information: hours, minutes, seconds.
#[derive(Debug, Clone, Copy, PartialEq, Eq, PartialOrd, Ord, Structural)]
pub struct Time(pub u8, pub u8, pub u8);

} // verus!
