//! Choosing a file through the desktop's file picker (`kdialog`, then
//! `zenity`).

use vstd::prelude::*;
use crate::filesystem::xdg::opt_view;
use crate::text::{string_from_chars, trim, trim_vec, vec_of};

verus! {

/// Runs the desktop file pickers.
pub struct FileDialog;

/// What a picker's output selects: its trimmed text, when not empty.
pub open spec fn picked(output: Option<Seq<char>>) -> Option<Seq<char>> {
    match output {
        Some(o) => if trim(o).len() > 0 {
            Some(trim(o))
        } else {
            None
        },
        None => None,
    }
}

impl FileDialog {
    /// The directory the pickers open in: `HOME`, or `/home` when unset.
    pub fn start_dir(home_env: Option<&str>) -> (r: String)
        ensures
            r@ == match opt_view(home_env) {
                Some(h) => h,
                None => "/home"@,
            },
    {
        match home_env {
            Some(h) => h.to_owned(),
            None => "/home".to_owned(),
        }
    }

    /// The `--filename=` argument that opens `zenity` in `home`.
    pub fn zenity_filename_arg(home: &str) -> (r: String)
        ensures
            r@ == "--filename="@ + home@ + "/"@,
    {
        let mut out = vec_of("--filename=");
        crate::split::append_str(&mut out, home);
        crate::split::append_str(&mut out, "/");
        string_from_chars(&out)
    }

    /// The chosen file: what `kdialog` selected, else what `zenity`
    /// selected. Each output is the picker's standard output when it exited
    /// successfully.
    pub fn pick_file(kdialog_output: Option<&str>, zenity_output: Option<&str>) -> (r: Option<String>)
        ensures
            match r {
                Some(p) => picked(opt_view(kdialog_output)) == Some(p@) || (picked(
                    opt_view(kdialog_output),
                ) is None && picked(opt_view(zenity_output)) == Some(p@)),
                None => picked(opt_view(kdialog_output)) is None && picked(
                    opt_view(zenity_output),
                ) is None,
            },
    {
        if let Some(o) = kdialog_output {
            let t = trim_vec(&vec_of(o));
            if t.len() > 0 {
                return Some(string_from_chars(&t));
            }
        }
        if let Some(o) = zenity_output {
            let t = trim_vec(&vec_of(o));
            if t.len() > 0 {
                return Some(string_from_chars(&t));
            }
        }
        None
    }
}

} // verus!
