//! What the settings page does when the user changes a preference: the
//! state changes here, and the window is told what to save, switch and
//! redraw.

use vstd::prelude::*;
use crate::app::state::AppState;
use crate::localization::loader::{Language, language_code, language_of_name};
use crate::theme::{ThemeMode, theme_of_code};

verus! {

/// A change the user made on the settings page.
pub enum SettingsEvent {
    /// The theme selector moved to the given index.
    ThemeChanged(i32),
    /// The language selector chose the given name.
    LanguageChanged(String),
    /// The autostart switch was set.
    AutostartToggled(bool),
    /// The start-minimized switch was set.
    StartMinimizedToggled(bool),
}

/// The two switches the settings page shows.
#[derive(Debug, Clone, Copy, PartialEq, Eq, Structural)]
pub struct SettingsToggles {
    pub autostart_enabled: bool,
    pub start_minimized_enabled: bool,
}

/// What the window does after an event: save the preferences, write or
/// remove the application's autostart entry (enabled, minimized), apply a
/// theme, redraw the translated texts, redraw the switches.
#[derive(Debug, Clone, Copy)]
pub struct SettingsReaction {
    pub save: bool,
    pub autostart: Option<(bool, bool)>,
    pub apply_theme: Option<ThemeMode>,
    pub refresh_strings: bool,
    pub refresh_toggles: Option<SettingsToggles>,
}

/// The switches as the preferences set them.
pub open spec fn toggles_of(state: AppState) -> SettingsToggles {
    SettingsToggles {
        autostart_enabled: state.settings.autostart,
        start_minimized_enabled: state.settings.start_minimized,
    }
}

/// The switches the settings page shows for the state.
pub fn update_settings_ui(state: &AppState) -> (r: SettingsToggles)
    ensures
        r == toggles_of(*state),
{
    SettingsToggles {
        autostart_enabled: state.settings.autostart,
        start_minimized_enabled: state.settings.start_minimized,
    }
}

/// Applies a change of the settings page to the state and says what the
/// window must do next.
///
/// A new theme is recorded, saved and applied. A new language is switched
/// to, recorded and saved, and the texts and switches are redrawn. The
/// autostart switch is recorded and saved, and the entry is written or
/// removed with the current start-minimized choice. The start-minimized
/// switch is recorded and saved, and the entry is written again only while
/// autostart is on.
pub fn handle_settings_event(state: &mut AppState, event: SettingsEvent) -> (r: SettingsReaction)
    ensures
        final(state).current_page == old(state).current_page,
        r.save,
        match event {
            SettingsEvent::ThemeChanged(idx) => {
                &&& final(state).settings.theme == theme_of_code(idx)
                &&& final(state).settings.language == old(state).settings.language
                &&& final(state).settings.autostart == old(state).settings.autostart
                &&& final(state).settings.start_minimized == old(state).settings.start_minimized
                &&& final(state).localization == old(state).localization
                &&& r.autostart is None
                &&& r.apply_theme == Some(theme_of_code(idx))
                &&& !r.refresh_strings
                &&& r.refresh_toggles is None
            },
            SettingsEvent::LanguageChanged(name) => {
                &&& final(state).localization.language() == language_of_name(name@)
                &&& forall|l: Language| #[trigger] final(state).localization.translations(l)
                    == old(state).localization.translations(l)
                &&& final(state).settings.language@ == language_code(language_of_name(name@))
                &&& final(state).settings.theme == old(state).settings.theme
                &&& final(state).settings.autostart == old(state).settings.autostart
                &&& final(state).settings.start_minimized == old(state).settings.start_minimized
                &&& r.autostart is None
                &&& r.apply_theme is None
                &&& r.refresh_strings
                &&& r.refresh_toggles == Some(toggles_of(*final(state)))
            },
            SettingsEvent::AutostartToggled(val) => {
                &&& final(state).settings.autostart == val
                &&& final(state).settings.theme == old(state).settings.theme
                &&& final(state).settings.language == old(state).settings.language
                &&& final(state).settings.start_minimized == old(state).settings.start_minimized
                &&& final(state).localization == old(state).localization
                &&& r.autostart == Some((val, old(state).settings.start_minimized))
                &&& r.apply_theme is None
                &&& !r.refresh_strings
                &&& r.refresh_toggles == Some(toggles_of(*final(state)))
            },
            SettingsEvent::StartMinimizedToggled(val) => {
                &&& final(state).settings.start_minimized == val
                &&& final(state).settings.theme == old(state).settings.theme
                &&& final(state).settings.language == old(state).settings.language
                &&& final(state).settings.autostart == old(state).settings.autostart
                &&& final(state).localization == old(state).localization
                &&& r.autostart == (if old(state).settings.autostart {
                    Some((true, val))
                } else {
                    None
                })
                &&& r.apply_theme is None
                &&& !r.refresh_strings
                &&& r.refresh_toggles == Some(toggles_of(*final(state)))
            },
        },
{
    match event {
        SettingsEvent::ThemeChanged(idx) => {
            let mode = ThemeMode::from_i32(idx);
            state.set_theme(mode);
            SettingsReaction {
                save: true,
                autostart: None,
                apply_theme: Some(mode),
                refresh_strings: false,
                refresh_toggles: None,
            }
        },
        SettingsEvent::LanguageChanged(name) => {
            let lang = Language::from_str_name(name.as_str());
            state.set_language(lang);
            let toggles = update_settings_ui(state);
            SettingsReaction {
                save: true,
                autostart: None,
                apply_theme: None,
                refresh_strings: true,
                refresh_toggles: Some(toggles),
            }
        },
        SettingsEvent::AutostartToggled(val) => {
            state.settings.autostart = val;
            let minimized = state.settings.start_minimized;
            let toggles = update_settings_ui(state);
            SettingsReaction {
                save: true,
                autostart: Some((val, minimized)),
                apply_theme: None,
                refresh_strings: false,
                refresh_toggles: Some(toggles),
            }
        },
        SettingsEvent::StartMinimizedToggled(val) => {
            state.settings.start_minimized = val;
            let autostart = if state.settings.autostart {
                Some((true, val))
            } else {
                None
            };
            let toggles = update_settings_ui(state);
            SettingsReaction {
                save: true,
                autostart,
                apply_theme: None,
                refresh_strings: false,
                refresh_toggles: Some(toggles),
            }
        },
    }
}

} // verus!
