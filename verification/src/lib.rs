//! Tenth: consulting-time tracking with billing rounded up to tenths of an hour.
//!
//! The library holds the tracker's data model, its billing arithmetic, the
//! text it renders (timers, summaries, CSV reports) and the decisions the
//! desktop shell takes on each user action.

pub mod calendar;
pub mod menu;
pub mod model;
pub mod order;
pub mod report;
pub mod storage;
pub mod text;
pub mod tracker;
