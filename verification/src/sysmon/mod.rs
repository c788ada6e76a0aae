pub mod docker_monitor;
pub mod metrics;
