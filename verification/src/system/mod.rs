//! System overview and storage summaries.

pub mod dashboard;
pub mod disks;
pub mod gpu;
pub mod history;
pub mod models;
pub mod os_info;
pub mod temperature;
