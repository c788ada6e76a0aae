use vstd::prelude::*;

pub mod ai;
pub mod anomaly;
pub mod clock;
pub mod config_inspector;
pub mod collector;
pub mod models;
pub mod json_line;
pub mod pattern;
pub mod sysmon;
pub mod plugin;
pub mod text;

verus! {
} // verus!
