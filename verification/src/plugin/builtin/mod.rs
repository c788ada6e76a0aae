pub mod docker;
pub mod nginx;
