use tidy_cleaner::app::state::AppState;
use tidy_cleaner::app::ui_utils::{apply_theme, update_ui_strings};
use tidy_cleaner::localization::loader::Language;
use tidy_cleaner::localization::LocalizationService;
use tidy_cleaner::settings::autostart::AppAutostartManager;
use tidy_cleaner::settings::models::AppSettings;
use tidy_cleaner::settings::storage::SettingsStorage;
use tidy_cleaner::settings::ui_bridge::{handle_settings_event, update_settings_ui, SettingsEvent};
use tidy_cleaner::theme::{detect_system_dark, ThemeMode};

#[test]
fn test_default_settings() {
    let settings = AppSettings::default();
    assert_eq!(settings.language, "en");
    assert_eq!(settings.theme, ThemeMode::Dark);
    assert!(!settings.autostart);
    assert!(!settings.start_minimized);
}

#[test]
fn test_settings_language_and_path() {
    let mut settings = AppSettings::default();
    settings.language = "ru".to_string();
    assert_eq!(settings.get_language(), Language::Ru);
    assert_eq!(
        SettingsStorage::config_path("/home/u/.config"),
        "/home/u/.config/tidy-cleaner/config.json"
    );
    assert_eq!(
        SettingsStorage::temp_path("/home/u/.config/"),
        "/home/u/.config/tidy-cleaner/config.json.tmp"
    );
}

#[test]
fn test_theme_codes() {
    for m in [ThemeMode::Dark, ThemeMode::Light, ThemeMode::System] {
        assert_eq!(ThemeMode::from_i32(m.to_i32()), m);
    }
    assert_eq!(ThemeMode::from_i32(7), ThemeMode::Dark);
    assert_eq!(ThemeMode::Light.to_i32(), 1);
    assert!(ThemeMode::Dark.is_dark(false));
    assert!(!ThemeMode::Light.is_dark(true));
    assert!(!ThemeMode::System.is_dark(false));
    assert_eq!(apply_theme(ThemeMode::System, true), (true, 2));
}

#[test]
fn test_system_dark_detection() {
    assert!(detect_system_dark(Some("Adwaita:dark"), None, None));
    assert!(!detect_system_dark(Some("Breeze-Light"), Some("15;0"), None));
    assert!(detect_system_dark(None, Some("15;0"), Some("'prefer-light'")));
    assert!(!detect_system_dark(None, Some("0;15"), Some("'prefer-light'")));
    assert!(detect_system_dark(None, None, Some("'default'")));
    assert!(detect_system_dark(None, None, None));
}

#[test]
fn test_app_state() {
    let mut settings = AppSettings::default();
    settings.language = "ru".to_string();
    let mut state = AppState::new(settings, LocalizationService::new());
    assert_eq!(state.get_language(), Language::Ru);
    assert_eq!(state.current_page, 0);
    state.set_page(3);
    assert_eq!(state.current_page, 3);
    state.set_language(Language::En);
    assert_eq!(state.settings.language, "en");
    assert_eq!(state.get_language(), Language::En);
    state.set_theme(ThemeMode::Light);
    assert_eq!(state.get_theme(), ThemeMode::Light);

    let ui = update_ui_strings(&state);
    assert_eq!(ui.current_lang, "en");
    assert!(ui
        .texts
        .iter()
        .any(|(p, t)| p == "nav_dashboard" && t == "Dashboard"));
    assert!(ui
        .texts
        .iter()
        .any(|(p, t)| p == "cleanup_risk_safe" && t == "Safe"));
}

#[test]
fn test_app_autostart_plan() {
    let plan = AppAutostartManager::set_app_autostart(true, true, "/opt/tidy cleaner/bin", "/home/u/.config/autostart", "/home/u");
    assert_eq!(plan.legacy_file, "/home/u/.config/autostart/tidy_cleaner.desktop");
    assert_eq!(plan.target_file, "/home/u/.config/autostart/tidy-cleaner.desktop");
    let content = plan.content.expect("enabled");
    assert!(content.contains("Exec=\"/opt/tidy cleaner/bin\" --minimized\n"));
    assert!(content.contains("Name=Tidy Cleaner\n"));
    let off = AppAutostartManager::set_app_autostart(false, false, "/x", "/d", "/h");
    assert!(off.content.is_none());
}

#[test]
fn test_settings_page_events() {
    let mut state = AppState::new(AppSettings::default(), LocalizationService::new());
    let toggles = update_settings_ui(&state);
    assert!(!toggles.autostart_enabled && !toggles.start_minimized_enabled);

    let r = handle_settings_event(&mut state, SettingsEvent::ThemeChanged(1));
    assert!(r.save);
    assert_eq!(r.apply_theme, Some(ThemeMode::Light));
    assert_eq!(state.settings.theme, ThemeMode::Light);
    assert!(r.autostart.is_none() && !r.refresh_strings && r.refresh_toggles.is_none());

    let r = handle_settings_event(&mut state, SettingsEvent::StartMinimizedToggled(true));
    assert!(state.settings.start_minimized);
    assert_eq!(r.autostart, None);
    assert_eq!(r.refresh_toggles.unwrap().start_minimized_enabled, true);

    let r = handle_settings_event(&mut state, SettingsEvent::AutostartToggled(true));
    assert!(state.settings.autostart);
    assert_eq!(r.autostart, Some((true, true)));

    let r = handle_settings_event(&mut state, SettingsEvent::StartMinimizedToggled(false));
    assert_eq!(r.autostart, Some((true, false)));
    assert!(r.save);

    let r = handle_settings_event(&mut state, SettingsEvent::LanguageChanged("Russian".to_string()));
    assert!(r.refresh_strings);
    assert_eq!(state.get_language(), Language::Ru);
    assert_eq!(state.settings.language, "ru");
    assert_eq!(state.localization.t("nav.dashboard"), "Мониторинг");

    let r = handle_settings_event(&mut state, SettingsEvent::AutostartToggled(false));
    assert_eq!(r.autostart, Some((false, false)));
    assert_eq!(
        r.refresh_toggles.unwrap(),
        update_settings_ui(&state)
    );
}
