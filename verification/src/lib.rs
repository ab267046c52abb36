//! Course page generation: the calendar of class meetings, the schedule table,
//! the instructor list and the checks on a course configuration.

pub mod args;
pub mod breaks;
pub mod calendar;
pub mod course;
pub mod instructors;
pub mod meetings;
pub mod pages;
pub mod render;
pub mod schedule;
pub mod text;
