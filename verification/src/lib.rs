//! A personal exercise log: repetition counts recorded at local instants, and
//! their totals over the calendar day, week (from Monday) or month that holds
//! a given instant.

pub mod calendar;
pub mod calendar_laws;
pub mod day_arithmetic;
pub mod instant;
pub mod window;
pub mod store;
pub mod query;
pub mod laws;
