pub mod anomaly;
pub mod incident;
pub mod log_entry;
pub mod report;
