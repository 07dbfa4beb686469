//! Portfolio analytics over integer data: venue preference, price
//! selection, position and portfolio snapshots, reporting windows and
//! chart series.
//!
//! Numbers are exact. Money is counted in minor currency units, unit counts
//! in millionths of a unit, prices in hundredths of a minor unit per whole
//! unit, instants in seconds since 1970-01-01T00:00:00 UTC and calendar days
//! as day numbers of the proleptic Gregorian calendar (day 1 is January 1 of
//! year 1).

pub mod analysis;
pub mod data;
pub mod models;
