//! Plain records of the machine's state.

use vstd::prelude::*;

verus! {

/// Operating system, kernel, host and uptime.
#[derive(Debug)]
pub struct SystemOverview {
    pub os_name: String,
    pub kernel_version: String,
    pub arch: String,
    pub hostname: String,
    pub uptime_seconds: u64,
    pub uptime_formatted: String,
}

/// One mounted filesystem as the operating system reports it.
#[derive(Debug)]
pub struct DiskReading {
    pub name: String,
    pub mount_point: String,
    pub file_system: String,
    pub total_bytes: u64,
    pub available_bytes: u64,
}

/// A filesystem shown on the dashboard, with its used space.
#[derive(Debug)]
pub struct DiskUsage {
    pub name: String,
    pub mount_point: String,
    pub file_system: String,
    pub total_bytes: u64,
    pub used_bytes: u64,
    pub available_bytes: u64,
}

} // verus!
