//! An appointment planner core: appointments (date, time, description,
//! location) are persisted in a SQLite store, mirrored in an in-memory
//! registry, and a monitor decides which of them are due.

pub mod appointment;
pub mod codec;
pub mod monitor;
pub mod planner;
pub mod registry;
pub mod store;
