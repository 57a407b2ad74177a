//! Fantasy-baseball head-to-head scoring library.
//!
//! Raw per-game counting statistics are matched against a league roster,
//! merged across dates, weighted by a league scoring rule and ranked.
//! All point arithmetic is exact fixed-point: one fantasy point is 300
//! units, so a third of an inning's weight is a whole number of units.

pub mod calendar;
pub mod league;
pub mod points;
pub mod roster;
pub mod stats;
pub mod text;
pub mod utils;
pub mod version;
