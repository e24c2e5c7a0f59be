//! The stored user preferences.

use vstd::prelude::*;
use crate::localization::loader::{Language, language_of_name};
use crate::theme::ThemeMode;

verus! {

/// The user's preferences.
#[derive(Debug)]
pub struct AppSettings {
    pub theme: ThemeMode,
    pub language: String,
    pub autostart: bool,
    pub start_minimized: bool,
}

impl Default for AppSettings {
    /// Dark theme, English, no autostart, not minimized.
    fn default() -> (r: Self)
        ensures
            r.theme == ThemeMode::Dark,
            r.language@ == "en"@,
            !r.autostart,
            !r.start_minimized,
    {
        AppSettings {
            theme: ThemeMode::Dark,
            language: "en".to_owned(),
            autostart: false,
            start_minimized: false,
        }
    }
}

impl Clone for AppSettings {
    fn clone(&self) -> (r: Self)
        ensures
            r == *self,
    {
        AppSettings {
            theme: self.theme,
            language: self.language.clone(),
            autostart: self.autostart,
            start_minimized: self.start_minimized,
        }
    }
}

impl AppSettings {
    /// The language the stored name stands for.
    pub fn get_language(&self) -> (r: Language)
        ensures
            r == language_of_name(self.language@),
    {
        Language::from_str_name(self.language.as_str())
    }
}

} // verus!
