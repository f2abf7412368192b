//! Answers to the server list.
pub mod handler;
pub mod icon;

pub use handler::StatusHandler;
pub use icon::{StatusIcon, StatusIconManager};
