//! Year-progress calculator: given a calendar timestamp, determine how far
//! through its containing year (proleptic Gregorian) that timestamp falls.
//!
//! The core is a single pure computation. Reading the current time and
//! rendering the ratio as a percentage string are left to the surrounding
//! program; the library works on validated calendar values and exact
//! second counts.

pub mod calendar;
pub mod progress;
