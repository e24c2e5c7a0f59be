use tidy_cleaner::cleanup::analyzer::Analyzer;
use tidy_cleaner::cleanup::cleaner::{CleanOutcome, Cleaner};
use tidy_cleaner::cleanup::models::{CleanupCategory, CleanupItem, CleanupRule, RiskLevel, ScanPhase};
use tidy_cleaner::cleanup::rules::{RuleDirs, RuleRegistry};
use tidy_cleaner::cleanup::scanner::{RuleOutcome, Scanner};
use tidy_cleaner::cleanup::service::CleanupService;
use tidy_cleaner::cleanup::ui_bridge::{handle_cleanup_event, update_cleanup_ui, CleanupAction, CleanupEvent};
use tidy_cleaner::localization::LocalizationService;
use tidy_cleaner::system::os_info::OsInfoCollector;

#[test]
fn test_system_forbidden_paths() {
    let forbidden = vec!["/etc", "/usr", "/boot", "/bin", "/sbin", "/root", "/"];
    for p in forbidden {
        assert!(
            p.starts_with("/etc")
                || p.starts_with("/usr")
                || p.starts_with("/boot")
                || p.starts_with("/bin")
                || p.starts_with("/sbin")
                || p.starts_with("/root")
                || p == "/"
        );
    }
}

fn item(id: &str, risk: RiskLevel, size: u64, selected: bool) -> CleanupItem {
    CleanupItem {
        id: id.to_string(),
        rule_id: id.to_string(),
        name: format!("cleanup.rule.{}", id),
        description: String::new(),
        path: format!("/home/u/.cache/{}", id),
        size_bytes: size,
        size_formatted: Scanner::format_bytes(size),
        safety_level: risk,
        category: CleanupCategory::ApplicationCache,
        selected,
    }
}

#[test]
fn test_format_bytes() {
    assert_eq!(Scanner::format_bytes(0), "0 B");
    assert_eq!(Scanner::format_bytes(1023), "1023 B");
    assert_eq!(Scanner::format_bytes(1024), "1 KB");
    assert_eq!(Scanner::format_bytes(1536), "2 KB");
    assert_eq!(Scanner::format_bytes(2560), "2 KB");
    assert_eq!(Scanner::format_bytes(1_572_864), "1.5 MB");
    assert_eq!(Scanner::format_bytes(3 * 1024 * 1024 * 1024), "3.00 GB");
    assert_eq!(Scanner::format_bytes(5 * 1024 * 1024 * 1024 * 1024), "5120.00 GB");
}

#[test]
fn test_default_rules() {
    let dirs = RuleDirs {
        home: "/home/u".to_string(),
        cache_dir: "/home/u/.cache".to_string(),
        config_dir: "/home/u/.config".to_string(),
        data_dir: "/home/u/.local/share".to_string(),
        download_dir: "/home/u/Загрузки".to_string(),
    };
    let rules = RuleRegistry::get_default_rules(&dirs);
    assert_eq!(rules.len(), 25);
    assert_eq!(rules[0].id, "thumbnails");
    assert_eq!(rules[0].base_path, "/home/u/.cache/thumbnails");
    assert_eq!(rules[0].name_key, "cleanup.rule.thumbnails");
    assert_eq!(rules[0].description_key, "cleanup.rule.thumbnails.desc");
    let trash = rules.iter().find(|r| r.id == "user_trash").unwrap();
    assert_eq!(trash.base_path, "/home/u/.local/share/Trash/files");
    assert_eq!(trash.safety_level, RiskLevel::Warning);
    let dl = rules.iter().find(|r| r.id == "downloads_folder").unwrap();
    assert_eq!(dl.base_path, "/home/u/Загрузки");
    assert!(dl.is_deep_scan);
    let cargo = rules.iter().find(|r| r.id == "cargo_cache").unwrap();
    assert_eq!(cargo.base_path, "/home/u/.cargo/.package-cache");
}

#[test]
fn test_run_scan() {
    let rule = |id: &str, deep: bool, risk: RiskLevel| CleanupRule {
        id: id.to_string(),
        name_key: format!("cleanup.rule.{}", id),
        description_key: format!("cleanup.rule.{}.desc", id),
        category: CleanupCategory::BuildCache,
        base_path: format!("/home/u/{}", id),
        is_deep_scan: deep,
        safety_level: risk,
    };
    let rules = vec![
        rule("a", false, RiskLevel::Warning),
        rule("b", false, RiskLevel::Safe),
        rule("c", true, RiskLevel::Safe),
        rule("d", false, RiskLevel::Safe),
        rule("e", false, RiskLevel::Safe),
        rule("f", false, RiskLevel::Safe),
    ];
    let outcomes = vec![
        RuleOutcome::Measured(10),
        RuleOutcome::Measured(100),
        RuleOutcome::Measured(5000),
        RuleOutcome::Missing,
        RuleOutcome::Measured(2048),
        RuleOutcome::Measured(0),
    ];
    let items = Scanner::run_scan(&rules, false, &outcomes);
    let ids: Vec<&str> = items.iter().map(|i| i.id.as_str()).collect();
    assert_eq!(ids, vec!["e_4", "b_1", "a_0"]);
    assert!(items[0].selected);
    assert!(!items[2].selected);
    assert_eq!(items[0].size_formatted, "2 KB");

    let full = Scanner::run_scan(&rules, true, &outcomes);
    assert_eq!(full[0].id, "c_2");

    let cancelled = vec![
        RuleOutcome::Measured(10),
        RuleOutcome::Cancelled,
        RuleOutcome::Measured(100),
        RuleOutcome::Measured(100),
        RuleOutcome::Measured(100),
        RuleOutcome::Measured(100),
    ];
    let items = Scanner::run_scan(&rules, true, &cancelled);
    assert_eq!(items.len(), 1);
    assert_eq!(items[0].id, "a_0");
}

#[test]
fn test_selection() {
    let mut items = vec![
        item("a", RiskLevel::Safe, 1024, false),
        item("b", RiskLevel::Warning, 2048, false),
        item("c", RiskLevel::Dangerous, 4096, true),
    ];
    Analyzer::set_all_selected(&mut items, true);
    assert!(items[0].selected);
    assert!(!items[1].selected);
    assert!(items[2].selected);
    let (count, bytes, text) = Analyzer::calculate_selected_summary(&items);
    assert_eq!((count, bytes, text.as_str()), (2, 5120, "5 KB"));
    Analyzer::toggle_item_selected(&mut items, "b");
    assert!(items[1].selected);
    Analyzer::toggle_item_selected(&mut items, "b");
    assert!(!items[1].selected);
    Analyzer::toggle_item_selected(&mut items, "zzz");
    Analyzer::set_all_selected(&mut items, false);
    assert_eq!(Analyzer::calculate_selected_summary(&items).0, 0);

    let found = Analyzer::filter_items(&items, None, "CACHE/B");
    assert_eq!(found.len(), 1);
    assert_eq!(found[0].id, "b");
    assert_eq!(Analyzer::filter_items(&items, Some(CleanupCategory::Trash), "").len(), 0);
    assert_eq!(Analyzer::filter_items(&items, Some(CleanupCategory::ApplicationCache), "").len(), 3);
}

#[test]
fn test_clean_plan_and_summary() {
    let items = vec![
        item("a", RiskLevel::Safe, 10, true),
        item("b", RiskLevel::Dangerous, 20, true),
        item("c", RiskLevel::Warning, 30, false),
        item("d", RiskLevel::Warning, 40, true),
        item("e", RiskLevel::Safe, 50, true),
    ];
    assert_eq!(Cleaner::plan_clean(&items), vec![0, 3, 4]);
    let outcomes = vec![
        CleanOutcome::Cleaned(10),
        CleanOutcome::Cleaned(999),
        CleanOutcome::Cleaned(999),
        CleanOutcome::Failed("Permission denied".to_string()),
        CleanOutcome::Cleaned(50),
    ];
    let summary = Cleaner::run_clean(&items, &outcomes);
    assert_eq!(summary.items_cleaned, 2);
    assert_eq!(summary.bytes_freed, 60);
    assert_eq!(summary.errors, vec!["/home/u/.cache/d: Permission denied".to_string()]);

    let cancelled = vec![
        CleanOutcome::Cleaned(10),
        CleanOutcome::Cancelled,
        CleanOutcome::Cleaned(1),
        CleanOutcome::Cleaned(1),
        CleanOutcome::Cleaned(1),
    ];
    let summary = Cleaner::run_clean(&items, &cancelled);
    assert_eq!(summary.items_cleaned, 1);
    assert_eq!(summary.bytes_freed, 10);
}

#[test]
fn test_labels() {
    assert_eq!(RiskLevel::Dangerous.as_str(), "Dangerous");
    assert_eq!(CleanupCategory::CrashReports.as_str(), "Crash Dumps");
    assert_eq!(CleanupCategory::SystemLogs.icon_name(), "logs");
}

fn dirs() -> RuleDirs {
    RuleDirs {
        home: "/home/u".to_string(),
        cache_dir: "/home/u/.cache".to_string(),
        config_dir: "/home/u/.config".to_string(),
        data_dir: "/home/u/.local/share".to_string(),
        download_dir: "/home/u/Downloads".to_string(),
    }
}

#[test]
fn test_cleanup_service_cache() {
    let mut service = CleanupService::new(&dirs());
    assert_eq!(service.rules.len(), RuleRegistry::get_default_rules(&dirs()).len());
    assert!(service.get_cached_items().is_empty());

    service.scan_finished(vec![
        item("a", RiskLevel::Safe, 10, false),
        item("b", RiskLevel::Warning, 20, false),
        item("c", RiskLevel::Safe, 30, false),
    ]);
    service.select_all(true);
    let ids: Vec<bool> = service.get_cached_items().iter().map(|i| i.selected).collect();
    assert_eq!(ids, vec![true, false, true]);

    service.toggle_item("b");
    service.toggle_item("c");
    service.clean_finished();
    let left: Vec<String> = service.get_cached_items().iter().map(|i| i.id.clone()).collect();
    assert_eq!(left, vec!["c".to_string()]);

    service.select_all(false);
    assert!(!service.get_cached_items()[0].selected);
}

#[test]
fn test_cleanup_page() {
    let loc = LocalizationService::new();
    let items = vec![
        item("thumbnails", RiskLevel::Safe, 2048, true),
        item("user_trash", RiskLevel::Warning, 1024, false),
        item("x", RiskLevel::Dangerous, 1024 * 1024, true),
    ];
    let page = update_cleanup_ui(&items, &loc);
    assert_eq!(page.items.len(), 3);
    assert_eq!(page.items[0].risk_level_code, "safe");
    assert_eq!(page.items[0].risk_level_text, "Safe");
    assert_eq!(page.items[1].risk_level_code, "warning");
    assert_eq!(page.items[1].risk_level_text, "Warning");
    assert_eq!(page.items[2].risk_level_code, "dangerous");
    assert_eq!(page.items[2].name, "cleanup.rule.x");
    assert_eq!(page.items[0].path_str, "/home/u/.cache/thumbnails");
    assert_eq!(page.items[0].size_str, "2 KB");
    assert!(page.items[0].is_selected && !page.items[1].is_selected);
    assert_eq!(page.total_found_items_count, 3);
    assert_eq!(page.total_found_size_str, Scanner::format_bytes(2048 + 1024 + 1024 * 1024));
    assert_eq!(page.total_selected_items_count, 2);
    assert_eq!(page.total_selected_size_str, Scanner::format_bytes(2048 + 1024 * 1024));
}

#[test]
fn test_cleanup_events() {
    let loc = LocalizationService::new();
    let mut service = CleanupService::new(&dirs());
    service.scan_finished(vec![
        item("a", RiskLevel::Safe, 10, false),
        item("b", RiskLevel::Warning, 20, true),
    ]);

    match handle_cleanup_event(&mut service, &loc, CleanupEvent::StartScan) {
        CleanupAction::Scan { status_text } => assert_eq!(status_text, "Scanning files"),
        other => panic!("unexpected {:?}", other),
    }
    assert!(matches!(handle_cleanup_event(&mut service, &loc, CleanupEvent::Cancel), CleanupAction::Cancel));
    assert!(matches!(
        handle_cleanup_event(&mut service, &loc, CleanupEvent::ToggleItem("a".to_string())),
        CleanupAction::Redraw
    ));
    assert!(service.cached_items[0].selected);
    match handle_cleanup_event(&mut service, &loc, CleanupEvent::OpenItem("b".to_string())) {
        CleanupAction::Open(p) => assert_eq!(p, "/home/u/.cache/b"),
        other => panic!("unexpected {:?}", other),
    }
    assert!(matches!(
        handle_cleanup_event(&mut service, &loc, CleanupEvent::OpenItem("zz".to_string())),
        CleanupAction::Nothing
    ));
    match handle_cleanup_event(&mut service, &loc, CleanupEvent::CleanSelected) {
        CleanupAction::Clean { status_text, items } => {
            assert_eq!(status_text, "Preparing");
            assert_eq!(items.len(), 2);
        }
        other => panic!("unexpected {:?}", other),
    }
    handle_cleanup_event(&mut service, &loc, CleanupEvent::DeselectAll);
    match handle_cleanup_event(&mut service, &loc, CleanupEvent::CleanSelected) {
        CleanupAction::Clean { items, .. } => assert!(items.is_empty()),
        other => panic!("unexpected {:?}", other),
    }
    handle_cleanup_event(&mut service, &loc, CleanupEvent::SelectAll);
    assert!(service.cached_items[0].selected);
    assert!(!service.cached_items[1].selected);
}

#[test]
fn test_scan_progress() {
    let rules = RuleRegistry::get_default_rules(&dirs());
    let n = rules.len();
    let mut outcomes = vec![RuleOutcome::Missing; n];
    outcomes[0] = RuleOutcome::Measured(2048);
    outcomes[1] = RuleOutcome::Measured(0);
    outcomes[2] = RuleOutcome::Measured(100);
    let reports = Scanner::scan_progress(&rules, true, &outcomes);
    assert_eq!(reports.len(), 4);
    assert_eq!(reports[0].phase, ScanPhase::Scanning);
    assert_eq!(reports[0].current_item, rules[0].base_path);
    assert_eq!((reports[0].items_found, reports[0].bytes_found, reports[0].done, reports[0].total), (0, 0, 0, n));
    assert_eq!((reports[2].items_found, reports[2].bytes_found, reports[2].done), (1, 2048, 2));
    let last = &reports[3];
    assert_eq!(last.phase, ScanPhase::Completed);
    assert_eq!(last.items_found, Scanner::run_scan(&rules, true, &outcomes).len());
    assert_eq!(last.bytes_found, 2148);
    assert_eq!((last.done, last.total), (n, n));

    outcomes[2] = RuleOutcome::Cancelled;
    let reports = Scanner::scan_progress(&rules, true, &outcomes);
    assert_eq!(reports.len(), 4);
    assert_eq!(reports[2].phase, ScanPhase::Cancelled);
    assert_eq!((reports[2].items_found, reports[2].done), (1, 2));
    assert_eq!(reports[3].phase, ScanPhase::Completed);
    assert_eq!(reports[3].items_found, 1);
}

#[test]
fn test_clean_progress() {
    let items = vec![
        item("a", RiskLevel::Safe, 10, true),
        item("b", RiskLevel::Dangerous, 20, true),
        item("c", RiskLevel::Warning, 30, false),
        item("d", RiskLevel::Warning, 40, true),
    ];
    let outcomes = vec![
        CleanOutcome::Cleaned(10),
        CleanOutcome::Cleaned(20),
        CleanOutcome::Cleaned(30),
        CleanOutcome::Failed("busy".to_string()),
    ];
    assert_eq!(Cleaner::plan_clean(&items), vec![0, 3]);
    let reports = Cleaner::clean_progress(&items, &outcomes);
    assert_eq!(reports.len(), 3);
    assert_eq!(reports[0].phase, ScanPhase::Cleaning);
    assert_eq!(reports[0].current_item, "/home/u/.cache/a");
    assert_eq!(reports[1].current_item, "/home/u/.cache/d");
    assert_eq!((reports[1].items_found, reports[1].bytes_found, reports[1].done), (1, 10, 3));
    let summary = Cleaner::run_clean(&items, &outcomes);
    assert_eq!(reports[2].phase, ScanPhase::Completed);
    assert_eq!((reports[2].items_found, reports[2].bytes_found), (summary.items_cleaned, summary.bytes_freed));
    assert_eq!(summary.errors, vec!["/home/u/.cache/d: busy".to_string()]);
}

#[test]
fn test_size_texts_agree_below_tebibyte() {
    let tib: u64 = 1024 * 1024 * 1024 * 1024;
    let samples: Vec<u64> = vec![
        0,
        500,
        1023,
        1024,
        1536,
        1024 * 500,
        1_572_864,
        3 * 1024 * 1024 + 7,
        5 * 1024 * 1024 * 1024,
        tib - 1,
    ];
    for b in samples {
        assert_eq!(Scanner::format_bytes(b), OsInfoCollector::format_bytes(b));
    }
    assert_eq!(Scanner::format_bytes(2 * tib), "2048.00 GB");
    assert_eq!(OsInfoCollector::format_bytes(2 * tib), "2.00 TB");
}
