//! Cleanup rules, found items and their risk levels.

use vstd::prelude::*;

verus! {

/// How risky it is to delete an item.
#[derive(Debug, Clone, Copy, PartialEq, Eq, Structural)]
pub enum RiskLevel {
    Safe,
    Warning,
    Dangerous,
}

impl RiskLevel {
    pub fn as_str(&self) -> (r: &'static str)
        ensures
            r@ == match *self {
                RiskLevel::Safe => "Safe"@,
                RiskLevel::Warning => "Warning"@,
                RiskLevel::Dangerous => "Dangerous"@,
            },
    {
        match self {
            RiskLevel::Safe => "Safe",
            RiskLevel::Warning => "Warning",
            RiskLevel::Dangerous => "Dangerous",
        }
    }
}

/// What kind of data an item holds.
#[derive(Debug, Clone, Copy, PartialEq, Eq, Structural)]
pub enum CleanupCategory {
    ApplicationCache,
    Thumbnails,
    BrowserCache,
    PackageCache,
    BuildCache,
    CrashReports,
    Trash,
    Downloads,
    SystemLogs,
    Leftovers,
}

impl CleanupCategory {
    pub fn as_str(&self) -> (r: &'static str)
        ensures
            r@ == match *self {
                CleanupCategory::ApplicationCache => "App Cache"@,
                CleanupCategory::Thumbnails => "Thumbnails"@,
                CleanupCategory::BrowserCache => "Browser Cache"@,
                CleanupCategory::PackageCache => "Package Cache"@,
                CleanupCategory::BuildCache => "Build Cache"@,
                CleanupCategory::CrashReports => "Crash Dumps"@,
                CleanupCategory::Trash => "Trash"@,
                CleanupCategory::Downloads => "Downloads"@,
                CleanupCategory::SystemLogs => "System Logs"@,
                CleanupCategory::Leftovers => "Leftovers"@,
            },
    {
        match self {
            CleanupCategory::ApplicationCache => "App Cache",
            CleanupCategory::Thumbnails => "Thumbnails",
            CleanupCategory::BrowserCache => "Browser Cache",
            CleanupCategory::PackageCache => "Package Cache",
            CleanupCategory::BuildCache => "Build Cache",
            CleanupCategory::CrashReports => "Crash Dumps",
            CleanupCategory::Trash => "Trash",
            CleanupCategory::Downloads => "Downloads",
            CleanupCategory::SystemLogs => "System Logs",
            CleanupCategory::Leftovers => "Leftovers",
        }
    }

    pub fn icon_name(&self) -> (r: &'static str)
        ensures
            r@ == match *self {
                CleanupCategory::ApplicationCache => "cache"@,
                CleanupCategory::Thumbnails => "thumbnails"@,
                CleanupCategory::BrowserCache => "browser"@,
                CleanupCategory::PackageCache => "package"@,
                CleanupCategory::BuildCache => "build"@,
                CleanupCategory::CrashReports => "crash"@,
                CleanupCategory::Trash => "trash"@,
                CleanupCategory::Downloads => "downloads"@,
                CleanupCategory::SystemLogs => "logs"@,
                CleanupCategory::Leftovers => "leftovers"@,
            },
    {
        match self {
            CleanupCategory::ApplicationCache => "cache",
            CleanupCategory::Thumbnails => "thumbnails",
            CleanupCategory::BrowserCache => "browser",
            CleanupCategory::PackageCache => "package",
            CleanupCategory::BuildCache => "build",
            CleanupCategory::CrashReports => "crash",
            CleanupCategory::Trash => "trash",
            CleanupCategory::Downloads => "downloads",
            CleanupCategory::SystemLogs => "logs",
            CleanupCategory::Leftovers => "leftovers",
        }
    }
}

/// A place that may hold removable data.
#[derive(Debug)]
pub struct CleanupRule {
    pub id: String,
    pub name_key: String,
    pub description_key: String,
    pub category: CleanupCategory,
    pub base_path: String,
    pub is_deep_scan: bool,
    pub safety_level: RiskLevel,
}

impl Clone for CleanupRule {
    fn clone(&self) -> (r: Self)
        ensures
            r == *self,
    {
        CleanupRule {
            id: self.id.clone(),
            name_key: self.name_key.clone(),
            description_key: self.description_key.clone(),
            category: self.category,
            base_path: self.base_path.clone(),
            is_deep_scan: self.is_deep_scan,
            safety_level: self.safety_level,
        }
    }
}

/// Removable data that a scan found.
#[derive(Debug)]
pub struct CleanupItem {
    pub id: String,
    pub rule_id: String,
    pub name: String,
    pub description: String,
    pub path: String,
    pub size_bytes: u64,
    pub size_formatted: String,
    pub safety_level: RiskLevel,
    pub category: CleanupCategory,
    pub selected: bool,
}

impl Clone for CleanupItem {
    fn clone(&self) -> (r: Self)
        ensures
            r == *self,
    {
        CleanupItem {
            id: self.id.clone(),
            rule_id: self.rule_id.clone(),
            name: self.name.clone(),
            description: self.description.clone(),
            path: self.path.clone(),
            size_bytes: self.size_bytes,
            size_formatted: self.size_formatted.clone(),
            safety_level: self.safety_level,
            category: self.category,
            selected: self.selected,
        }
    }
}

/// The stage a scan or cleanup is in.
#[derive(Debug, Clone, Copy, PartialEq, Eq, Structural)]
pub enum ScanPhase {
    Idle,
    Scanning,
    Completed,
    Cleaning,
    Cancelled,
}

/// A progress report of a scan or cleanup: the phase, the location being
/// worked on, what was found or freed so far, and how far the run is (the
/// percentage is `100 * done / total`, and 100 once completed).
#[derive(Debug)]
pub struct ScanProgress {
    pub phase: ScanPhase,
    pub current_item: String,
    pub items_found: usize,
    pub bytes_found: u64,
    pub done: usize,
    pub total: usize,
}

/// A progress report as values.
pub struct ProgressView {
    pub phase: ScanPhase,
    pub current_item: Seq<char>,
    pub items_found: nat,
    pub bytes_found: nat,
    pub done: nat,
    pub total: nat,
}

/// The values of a progress report.
pub open spec fn progress_view(p: ScanProgress) -> ProgressView {
    ProgressView {
        phase: p.phase,
        current_item: p.current_item@,
        items_found: p.items_found as nat,
        bytes_found: p.bytes_found as nat,
        done: p.done as nat,
        total: p.total as nat,
    }
}

/// The values of a sequence of progress reports.
pub open spec fn progress_views(s: Seq<ScanProgress>) -> Seq<ProgressView> {
    Seq::new(s.len(), |i: int| progress_view(s[i]))
}

} // verus!
