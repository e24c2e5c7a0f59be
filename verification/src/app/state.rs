//! The state shared by the pages: preferences, translations and the page
//! shown.

use vstd::prelude::*;
use crate::localization::loader::{Language, language_code, language_of_name};
use crate::localization::LocalizationService;
use crate::settings::AppSettings;
use crate::theme::ThemeMode;

verus! {

/// Preferences, translations and the page shown.
#[derive(Debug)]
pub struct AppState {
    pub settings: AppSettings,
    pub localization: LocalizationService,
    pub current_page: i32,
}

impl AppState {
    /// The state for loaded preferences: the translations switched to the
    /// stored language, the first page shown.
    pub fn new(settings: AppSettings, localization: LocalizationService) -> (r: Self)
        ensures
            r.settings == settings,
            r.localization.language() == language_of_name(settings.language@),
            forall|l: Language| #[trigger] r.localization.translations(l)
                == localization.translations(l),
            r.current_page == 0,
    {
        let mut loc = localization;
        loc.set_language(settings.get_language());
        AppState { settings, localization: loc, current_page: 0 }
    }

    /// Shows another page.
    pub fn set_page(&mut self, page: i32)
        ensures
            final(self).current_page == page,
            final(self).settings == old(self).settings,
            final(self).localization == old(self).localization,
    {
        self.current_page = page;
    }

    /// Switches the language and records it in the preferences (which the
    /// caller then saves).
    pub fn set_language(&mut self, lang: Language)
        ensures
            final(self).localization.language() == lang,
            forall|l: Language| #[trigger] final(self).localization.translations(l)
                == old(self).localization.translations(l),
            final(self).settings.language@ == language_code(lang),
            final(self).settings.theme == old(self).settings.theme,
            final(self).settings.autostart == old(self).settings.autostart,
            final(self).settings.start_minimized == old(self).settings.start_minimized,
            final(self).current_page == old(self).current_page,
    {
        self.localization.set_language(lang);
        self.settings.language = lang.as_str().to_owned();
    }

    /// Switches the theme in the preferences (which the caller then saves).
    pub fn set_theme(&mut self, theme: ThemeMode)
        ensures
            final(self).settings.theme == theme,
            final(self).settings.language == old(self).settings.language,
            final(self).settings.autostart == old(self).settings.autostart,
            final(self).settings.start_minimized == old(self).settings.start_minimized,
            final(self).localization == old(self).localization,
            final(self).current_page == old(self).current_page,
    {
        self.settings.theme = theme;
    }

    /// The theme in the preferences.
    pub fn get_theme(&self) -> (r: ThemeMode)
        ensures
            r == self.settings.theme,
    {
        self.settings.theme
    }

    /// The language in use.
    pub fn get_language(&self) -> (r: Language)
        ensures
            r == self.localization.language(),
    {
        self.localization.current_language()
    }
}

} // verus!
