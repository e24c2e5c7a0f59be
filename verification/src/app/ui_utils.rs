//! The texts of the user interface in the current language.

use vstd::prelude::*;
use crate::app::state::AppState;
use crate::localization::loader::Language;
use crate::localization::translation;
use crate::text::{string_from_chars, vec_of};
use crate::theme::ThemeMode;

verus! {

/// The translation keys of the interface texts, in the order they are set.
pub open spec fn ui_keys() -> Seq<Seq<char>> {
    seq![
        "app.title"@,
        "nav.dashboard"@,
        "nav.cleanup"@,
        "nav.applications"@,
        "nav.startup"@,
        "nav.settings"@,
        "common.loading"@,
        "common.save"@,
        "common.cancel"@,
        "common.close"@,
        "common.search"@,
        "common.refresh"@,
        "common.all"@,
        "common.enabled"@,
        "common.disabled"@,
        "common.status"@,
        "common.total"@,
        "common.used"@,
        "common.free"@,
        "common.open"@,
        "common.delete"@,
        "common.version"@,
        "common.total_items"@,
        "dashboard.title"@,
        "dashboard.subtitle"@,
        "dashboard.cpu_usage"@,
        "dashboard.cpu_cores"@,
        "dashboard.cpu_freq"@,
        "dashboard.ram_usage"@,
        "dashboard.ram_used"@,
        "dashboard.ram_available"@,
        "dashboard.disks"@,
        "dashboard.system_info"@,
        "dashboard.system_overview"@,
        "dashboard.os"@,
        "dashboard.os_label"@,
        "dashboard.kernel"@,
        "dashboard.kernel_label"@,
        "dashboard.arch"@,
        "dashboard.hostname"@,
        "dashboard.host_label"@,
        "dashboard.uptime"@,
        "dashboard.uptime_label"@,
        "dashboard.temperature"@,
        "dashboard.cpu_temp"@,
        "dashboard.gpu_temp"@,
        "dashboard.temp_high"@,
        "dashboard.temp_optimal"@,
        "dashboard.storage_primary"@,
        "dashboard.storage_secondary"@,
        "dashboard.storage_used"@,
        "dashboard.storage_free"@,
        "dashboard.storage_total"@,
        "dashboard.storage_filesystem"@,
        "dashboard.cores_label"@,
        "cleanup.title"@,
        "cleanup.subtitle"@,
        "cleanup.fast_scan"@,
        "cleanup.full_scan"@,
        "cleanup.scan_start"@,
        "cleanup.clean_selected"@,
        "cleanup.select_all"@,
        "cleanup.deselect_all"@,
        "cleanup.empty_title"@,
        "cleanup.empty_desc"@,
        "cleanup.scanning"@,
        "cleanup.cleaning"@,
        "cleanup.status_scanning"@,
        "cleanup.status_preparing"@,
        "cleanup.cancel"@,
        "cleanup.clean_done"@,
        "cleanup.clean_done_desc"@,
        "cleanup.clean_selected_btn"@,
        "cleanup.items_found"@,
        "cleanup.reclaimable"@,
        "cleanup.selected"@,
        "cleanup.nothing_found_title"@,
        "cleanup.nothing_found_desc"@,
        "cleanup.risk.safe"@,
        "cleanup.risk.warning"@,
        "cleanup.risk.dangerous"@,
        "cleanup.confirm_title"@,
        "cleanup.confirm_desc"@,
        "cleanup.confirm_count_label"@,
        "cleanup.confirm_size_label"@,
        "applications.title"@,
        "applications.subtitle"@,
        "applications.search_placeholder"@,
        "applications.filter_all"@,
        "applications.uninstall_selected"@,
        "applications.uninstalling"@,
        "applications.status_preparing"@,
        "applications.confirm_uninstall_title"@,
        "applications.confirm_uninstall_desc"@,
        "applications.selected_for_uninstall"@,
        "applications.uninstall_btn"@,
        "applications.shortcut_created"@,
        "applications.empty_title"@,
        "applications.empty_desc"@,
        "startup.title"@,
        "startup.subtitle"@,
        "startup.add_app"@,
        "startup.empty_title"@,
        "startup.empty_desc"@,
        "startup.source_user"@,
        "startup.source_system"@,
        "startup.enabled"@,
        "startup.disabled"@,
        "startup.add_modal_title"@,
        "startup.field_name"@,
        "startup.field_name_placeholder"@,
        "startup.field_exec"@,
        "startup.field_exec_placeholder"@,
        "startup.field_comment"@,
        "startup.field_comment_placeholder"@,
        "startup.field_terminal"@,
        "startup.save_btn"@,
        "startup.confirm_remove_title"@,
        "startup.confirm_remove_desc"@,
        "startup.remove_btn"@,
        "tooltip.remove_startup"@,
        "tooltip.toggle_startup"@,
        "settings.title"@,
        "settings.subtitle"@,
        "settings.appearance"@,
        "settings.theme"@,
        "settings.theme_dark"@,
        "settings.theme_light"@,
        "settings.theme_system"@,
        "settings.language"@,
        "settings.startup_section"@,
        "settings.autostart"@,
        "settings.start_minimized"@,
        "settings.start_in_tray"@,
        "settings.cleanup_section"@,
        "settings.confirm_delete"@,
        "settings.show_hidden"@,
        "settings.include_downloads"@,
        "settings.disks_section"@,
        "settings.disks_desc"@,
        "settings.add_custom_mount"@,
        "settings.custom_mount_placeholder"@,
        "settings.notifications_section"@,
        "settings.notify_scan"@,
        "settings.notify_cleanup"@,
        "settings.updates_section"@,
        "settings.check_updates"@,
        "settings.updates_latest"@,
        "settings.updates_checking"@,
        "settings.about"@,
        "settings.version_label"@,
        "settings.open_logs"@,
        "tooltip.open_app"@,
        "tooltip.create_shortcut"@,
        "tooltip.uninstall_app"@,
        "tooltip.open_folder"@
    ]
}

/// The interface property a key sets: the key with `.` replaced by `_`.
pub open spec fn property_name(key: Seq<char>) -> Seq<char> {
    Seq::new(key.len(), |i: int| if key[i] == '.' { '_' } else { key[i] })
}

/// The translation keys of the interface texts.
pub fn ui_text_keys() -> (r: Vec<&'static str>)
    ensures
        Seq::new(r@.len(), |i: int| r@[i]@) == ui_keys(),
{
    let r = vec![
        "app.title",
        "nav.dashboard",
        "nav.cleanup",
        "nav.applications",
        "nav.startup",
        "nav.settings",
        "common.loading",
        "common.save",
        "common.cancel",
        "common.close",
        "common.search",
        "common.refresh",
        "common.all",
        "common.enabled",
        "common.disabled",
        "common.status",
        "common.total",
        "common.used",
        "common.free",
        "common.open",
        "common.delete",
        "common.version",
        "common.total_items",
        "dashboard.title",
        "dashboard.subtitle",
        "dashboard.cpu_usage",
        "dashboard.cpu_cores",
        "dashboard.cpu_freq",
        "dashboard.ram_usage",
        "dashboard.ram_used",
        "dashboard.ram_available",
        "dashboard.disks",
        "dashboard.system_info",
        "dashboard.system_overview",
        "dashboard.os",
        "dashboard.os_label",
        "dashboard.kernel",
        "dashboard.kernel_label",
        "dashboard.arch",
        "dashboard.hostname",
        "dashboard.host_label",
        "dashboard.uptime",
        "dashboard.uptime_label",
        "dashboard.temperature",
        "dashboard.cpu_temp",
        "dashboard.gpu_temp",
        "dashboard.temp_high",
        "dashboard.temp_optimal",
        "dashboard.storage_primary",
        "dashboard.storage_secondary",
        "dashboard.storage_used",
        "dashboard.storage_free",
        "dashboard.storage_total",
        "dashboard.storage_filesystem",
        "dashboard.cores_label",
        "cleanup.title",
        "cleanup.subtitle",
        "cleanup.fast_scan",
        "cleanup.full_scan",
        "cleanup.scan_start",
        "cleanup.clean_selected",
        "cleanup.select_all",
        "cleanup.deselect_all",
        "cleanup.empty_title",
        "cleanup.empty_desc",
        "cleanup.scanning",
        "cleanup.cleaning",
        "cleanup.status_scanning",
        "cleanup.status_preparing",
        "cleanup.cancel",
        "cleanup.clean_done",
        "cleanup.clean_done_desc",
        "cleanup.clean_selected_btn",
        "cleanup.items_found",
        "cleanup.reclaimable",
        "cleanup.selected",
        "cleanup.nothing_found_title",
        "cleanup.nothing_found_desc",
        "cleanup.risk.safe",
        "cleanup.risk.warning",
        "cleanup.risk.dangerous",
        "cleanup.confirm_title",
        "cleanup.confirm_desc",
        "cleanup.confirm_count_label",
        "cleanup.confirm_size_label",
        "applications.title",
        "applications.subtitle",
        "applications.search_placeholder",
        "applications.filter_all",
        "applications.uninstall_selected",
        "applications.uninstalling",
        "applications.status_preparing",
        "applications.confirm_uninstall_title",
        "applications.confirm_uninstall_desc",
        "applications.selected_for_uninstall",
        "applications.uninstall_btn",
        "applications.shortcut_created",
        "applications.empty_title",
        "applications.empty_desc",
        "startup.title",
        "startup.subtitle",
        "startup.add_app",
        "startup.empty_title",
        "startup.empty_desc",
        "startup.source_user",
        "startup.source_system",
        "startup.enabled",
        "startup.disabled",
        "startup.add_modal_title",
        "startup.field_name",
        "startup.field_name_placeholder",
        "startup.field_exec",
        "startup.field_exec_placeholder",
        "startup.field_comment",
        "startup.field_comment_placeholder",
        "startup.field_terminal",
        "startup.save_btn",
        "startup.confirm_remove_title",
        "startup.confirm_remove_desc",
        "startup.remove_btn",
        "tooltip.remove_startup",
        "tooltip.toggle_startup",
        "settings.title",
        "settings.subtitle",
        "settings.appearance",
        "settings.theme",
        "settings.theme_dark",
        "settings.theme_light",
        "settings.theme_system",
        "settings.language",
        "settings.startup_section",
        "settings.autostart",
        "settings.start_minimized",
        "settings.start_in_tray",
        "settings.cleanup_section",
        "settings.confirm_delete",
        "settings.show_hidden",
        "settings.include_downloads",
        "settings.disks_section",
        "settings.disks_desc",
        "settings.add_custom_mount",
        "settings.custom_mount_placeholder",
        "settings.notifications_section",
        "settings.notify_scan",
        "settings.notify_cleanup",
        "settings.updates_section",
        "settings.check_updates",
        "settings.updates_latest",
        "settings.updates_checking",
        "settings.about",
        "settings.version_label",
        "settings.open_logs",
        "tooltip.open_app",
        "tooltip.create_shortcut",
        "tooltip.uninstall_app",
        "tooltip.open_folder"
    ];
    assert(Seq::new(r@.len(), |i: int| r@[i]@) =~= ui_keys());
    r
}

/// The interface property a key sets.
pub fn property_of(key: &str) -> (r: String)
    ensures
        r@ == property_name(key@),
{
    let v = vec_of(key);
    let mut out: Vec<char> = Vec::new();
    let mut i: usize = 0;
    while i < v.len()
        invariant
            i <= v.len(),
            out@ == Seq::new(i as nat, |k: int| if v@[k] == '.' { '_' } else { v@[k] }),
        decreases v.len() - i,
    {
        if v[i] == '.' {
            out.push('_');
        } else {
            out.push(v[i]);
        }
        i += 1;
        assert(out@ =~= Seq::new(i as nat, |k: int| if v@[k] == '.' { '_' } else { v@[k] }));
    }
    string_from_chars(&out)
}

/// The interface texts: each property with its text, and the code of the
/// language in use.
#[derive(Debug)]
pub struct UiStrings {
    pub texts: Vec<(String, String)>,
    pub current_lang: &'static str,
}

/// Every interface text in the language in use: for each key of `ui_keys`,
/// its property and its text as `LocalizationService::t` gives it.
pub fn update_ui_strings(state: &AppState) -> (r: UiStrings)
    ensures
        r.texts@.len() == ui_keys().len(),
        forall|i: int|
            0 <= i < r.texts@.len() ==> (#[trigger] r.texts@[i]).0@ == property_name(ui_keys()[i])
                && r.texts@[i].1@ == translation(
                state.localization.translations(state.localization.language()),
                state.localization.translations(Language::En),
                ui_keys()[i],
            ),
        r.current_lang@ == crate::localization::loader::language_code(
            state.localization.language(),
        ),
{
    let keys = ui_text_keys();
    let mut texts: Vec<(String, String)> = Vec::new();
    let mut i: usize = 0;
    while i < keys.len()
        invariant
            i <= keys@.len(),
            Seq::new(keys@.len(), |k: int| keys@[k]@) == ui_keys(),
            texts@.len() == i,
            forall|k: int|
                0 <= k < i ==> (#[trigger] texts@[k]).0@ == property_name(ui_keys()[k])
                    && texts@[k].1@ == translation(
                    state.localization.translations(state.localization.language()),
                    state.localization.translations(Language::En),
                    ui_keys()[k],
                ),
        decreases keys.len() - i,
    {
        assert(keys@[i as int]@ == ui_keys()[i as int]);
        let p = property_of(keys[i]);
        let t = state.localization.t(keys[i]);
        texts.push((p, t));
        i += 1;
    }
    UiStrings { texts, current_lang: state.get_language().as_str() }
}

/// How the window shows a theme: whether it is dark (`System` follows the
/// desktop's preference) and the theme's number.
pub fn apply_theme(theme_mode: ThemeMode, system_prefers_dark: bool) -> (r: (bool, i32))
    ensures
        r.0 == match theme_mode {
            ThemeMode::Dark => true,
            ThemeMode::Light => false,
            ThemeMode::System => system_prefers_dark,
        },
        r.1 == crate::theme::theme_code(theme_mode),
{
    (theme_mode.is_dark(system_prefers_dark), theme_mode.to_i32())
}

} // verus!
