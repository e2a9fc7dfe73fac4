//! Process sampling and live-table core of a terminal process dashboard.
//!
//! The crate turns raw per-process accounting figures into process records,
//! hands complete snapshots from a sampler to a consumer through a
//! single-slot, latest-wins channel, and keeps a sorted, navigable table of
//! the records whose selection survives re-sorting and snapshot replacement.
//!
//! CPU utilisation is held as an integer number of hundredths of a percent.

pub mod action;
pub mod battery;
pub mod channel;
pub mod cpu;
pub mod cpu_graph;
pub mod debug;
pub mod model;
pub mod order;
pub mod process;
pub mod processes;
pub mod row;
pub mod sorting;
pub mod sparkline;
pub mod text;
pub mod uptime;
