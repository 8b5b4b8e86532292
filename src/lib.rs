//! Proximity alerts for transit vehicles: the waypoint configuration format,
//! the filtering of vehicle reports, the first-in-range matcher, the
//! notification text and the poll schedule.

pub mod text;
pub mod number;
pub mod stops;
pub mod vehicles;
pub mod alerts;
pub mod schedule;
pub mod config;
