//! Where the log files go.

use vstd::prelude::*;
use crate::filesystem::xdg::opt_view;
use crate::paths::{join_path, path_join};

verus! {

/// The log directory: `.local/share/cleaner/logs` under `HOME`, or under
/// the current directory when `HOME` is unset.
pub open spec fn log_dir(home_env: Option<Seq<char>>) -> Seq<char> {
    let home = match home_env {
        Some(h) => h,
        None => "."@,
    };
    path_join(path_join(path_join(path_join(home, ".local"@), "share"@), "cleaner"@), "logs"@)
}

/// The log directory for the given value of `HOME`.
pub fn dirs_log_path(home_env: Option<&str>) -> (r: String)
    ensures
        r@ == log_dir(opt_view(home_env)),
{
    let home = match home_env {
        Some(h) => h.to_owned(),
        None => ".".to_owned(),
    };
    let a = join_path(home.as_str(), ".local");
    let b = join_path(a.as_str(), "share");
    let c = join_path(b.as_str(), "cleaner");
    join_path(c.as_str(), "logs")
}

} // verus!
