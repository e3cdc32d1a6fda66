//! Arithmetic drills: tasks, assignments built from them, a store of
//! assignments that schedules one homework assignment per calendar day, and
//! the index of homework still open, grouped by due date.

pub mod task;
pub mod date;
pub mod id;
pub mod assignment;
pub mod store;
pub mod homework;
