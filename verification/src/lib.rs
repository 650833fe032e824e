//! Timetable lookups for a class schedule that alternates between two weeks.
//!
//! A timetable is a list of subjects and a list of schedule entries, each
//! entry placing a subject on a weekday, in one of four daily slots, in odd
//! weeks, even weeks or both. The library reads such lists from their packed
//! text form, turns a point in time into the weekday, slot and week it falls
//! in, and selects the subjects that a group has at that point.

pub mod text;
pub mod time;
pub mod data;
pub mod db;
pub mod display;
pub mod bot;
pub mod config;
