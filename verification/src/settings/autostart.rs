//! The application's own autostart entry.

use vstd::prelude::*;
use crate::paths::{join_path, path_join};
use crate::split::append_str;
use crate::startup::desktop::{APP_AUTOSTART_FILE_NAME, DesktopAutostart, desktop_content};
use crate::startup::models::CreateStartupRequest;
use crate::text::{string_from_chars, vec_of};

verus! {

/// Switches the application's own autostart entry.
pub struct AppAutostartManager;

/// The entry file name of older versions, removed on every change.
pub const LEGACY_AUTOSTART_FILE_NAME: &'static str = "tidy_cleaner.desktop";

/// What switching the application's autostart entry takes: the legacy file
/// to remove, the entry file, and the text to write to it (when enabling)
/// or `None` (when disabling: the entry file is removed).
#[derive(Debug)]
pub struct AutostartPlan {
    pub legacy_file: String,
    pub target_file: String,
    pub content: Option<String>,
}

/// The command the entry runs: the quoted executable, with `--minimized`
/// when the window starts minimized.
pub open spec fn app_command(exe_path: Seq<char>, start_minimized: bool) -> Seq<char> {
    if start_minimized {
        "\""@ + exe_path + "\" --minimized"@
    } else {
        "\""@ + exe_path + "\""@
    }
}

/// The request describing the application's own entry.
pub open spec fn app_request_is(req: CreateStartupRequest, exe_path: Seq<char>, start_minimized: bool) -> bool {
    &&& req.name@ == "Tidy Cleaner"@
    &&& req.command@ == app_command(exe_path, start_minimized)
    &&& req.comment@ == "Linux System Cleaner & Optimizer"@
    &&& req.icon@ == "tidy-cleaner"@
    &&& !req.terminal
}

impl AppAutostartManager {
    /// The request for the application's own entry.
    pub fn app_request(exe_path: &str, start_minimized: bool) -> (r: CreateStartupRequest)
        ensures
            app_request_is(r, exe_path@, start_minimized),
    {
        let mut command = vec_of("\"");
        append_str(&mut command, exe_path);
        if start_minimized {
            append_str(&mut command, "\" --minimized");
        } else {
            append_str(&mut command, "\"");
        }
        CreateStartupRequest {
            name: "Tidy Cleaner".to_owned(),
            command: string_from_chars(&command),
            comment: "Linux System Cleaner & Optimizer".to_owned(),
            icon: "tidy-cleaner".to_owned(),
            terminal: false,
        }
    }

    /// What switching the entry in `user_dir` takes: when enabling, the
    /// entry generated for the application's request (the command is
    /// quoted already, so no path needs checking); when disabling, none.
    pub fn set_app_autostart(enabled: bool, start_minimized: bool, exe_path: &str, user_dir: &str, home: &str) -> (r: AutostartPlan)
        ensures
            r.legacy_file@ == path_join(user_dir@, LEGACY_AUTOSTART_FILE_NAME@),
            r.target_file@ == path_join(user_dir@, APP_AUTOSTART_FILE_NAME@),
            enabled ==> r.content is Some,
            enabled ==> exists|req: CreateStartupRequest|
                app_request_is(req, exe_path@, start_minimized) && r.content->0@ == desktop_content(
                    req,
                    home@,
                    false,
                ),
            !enabled ==> r.content is None,
    {
        let legacy_file = join_path(user_dir, LEGACY_AUTOSTART_FILE_NAME);
        let target_file = join_path(user_dir, APP_AUTOSTART_FILE_NAME);
        if enabled {
            let req = Self::app_request(exe_path, start_minimized);
            let content = DesktopAutostart::generate_desktop_file_content(&req, home, false);
            AutostartPlan { legacy_file, target_file, content: Some(content) }
        } else {
            AutostartPlan { legacy_file, target_file, content: None }
        }
    }
}

} // verus!
