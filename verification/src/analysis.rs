//! The analytics engine, leaves first.

pub mod calendar;
pub mod irr;
pub mod jobs;
pub mod performance;
pub mod plots;
pub mod portfolio;
pub mod price;
