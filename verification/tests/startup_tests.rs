use tidy_cleaner::startup::desktop::{toggle_content, DesktopAutostart, StartupError};
use tidy_cleaner::startup::manager::{StartupManager, StartupService};
use tidy_cleaner::startup::models::{CreateStartupRequest, StartupSource};
use tidy_cleaner::startup::scanner::StartupScanner;
use tidy_cleaner::startup::ui_bridge::{browse_suggestion, update_startup_ui};
use tidy_cleaner::localization::LocalizationService;

#[test]
fn test_validate_startup_request() {
    let empty_name = CreateStartupRequest {
        name: "".to_string(),
        command: "/usr/bin/discord".to_string(),
        comment: "".to_string(),
        icon: "".to_string(),
        terminal: false,
    };
    assert!(DesktopAutostart::validate_request(&empty_name).is_err());

    let empty_exec = CreateStartupRequest {
        name: "Discord".to_string(),
        command: "   ".to_string(),
        comment: "".to_string(),
        icon: "".to_string(),
        terminal: false,
    };
    assert!(DesktopAutostart::validate_request(&empty_exec).is_err());

    let valid_req = CreateStartupRequest {
        name: "Discord".to_string(),
        command: "/usr/bin/discord".to_string(),
        comment: "All-in-one voice and text chat".to_string(),
        icon: "discord".to_string(),
        terminal: false,
    };
    assert!(DesktopAutostart::validate_request(&valid_req).is_ok());
}

#[test]
fn test_generate_and_parse_desktop_autostart() {
    let req = CreateStartupRequest {
        name: "My Custom Script".to_string(),
        command: "/home/user/myscript.sh --daemon".to_string(),
        comment: "Background backup script".to_string(),
        icon: "utilities-terminal".to_string(),
        terminal: true,
    };

    let content = DesktopAutostart::generate_desktop_file_content(&req, "/home/user", false);
    assert!(content.contains("[Desktop Entry]"));
    assert!(content.contains("Name=My Custom Script"));
    assert!(content.contains("Exec=/home/user/myscript.sh --daemon"));
    assert!(content.contains("Comment=Background backup script"));
    assert!(content.contains("Icon=utilities-terminal"));
    assert!(content.contains("Terminal=true"));
    assert!(content.contains("X-GNOME-Autostart-enabled=true"));
    assert!(content.contains("X-KDE-autostart-enabled=true"));

    let parsed = DesktopAutostart::parse_file(&content, "/tmp/tidy_test/my_custom_script.desktop", StartupSource::User);
    assert_eq!(parsed.name, "My Custom Script");
    assert_eq!(parsed.command, "/home/user/myscript.sh --daemon");
    assert_eq!(parsed.comment, "Background backup script");
    assert_eq!(parsed.icon, "utilities-terminal");
    assert!(parsed.is_terminal);
    assert!(parsed.enabled);
    assert_eq!(parsed.id, "user:my_custom_script.desktop");
    assert_eq!(parsed.file_name, "my_custom_script.desktop");
}

#[test]
fn test_parse_disabled_autostart_entry() {
    let content = "[Desktop Entry]\n\
        Type=Application\n\
        Name=Disabled App\n\
        Exec=/usr/bin/disabled\n\
        Hidden=true\n\
        X-GNOME-Autostart-enabled=false\n";

    let parsed = DesktopAutostart::parse_file(content, "/etc/xdg/autostart/disabled.desktop", StartupSource::System);
    assert_eq!(parsed.name, "Disabled App");
    assert!(!parsed.enabled);
    assert_eq!(parsed.id, "system:disabled.desktop");
}

#[test]
fn test_parse_details() {
    let content = "# comment\nName=Outside\n[Desktop Entry]\nExec=app %U --flag %f\nTerminal=TRUE\n[Other]\nName=Late\n";
    let parsed = DesktopAutostart::parse_file(content, "/a/b/late-app.desktop", StartupSource::User);
    assert_eq!(parsed.name, "late-app");
    assert_eq!(parsed.command, "app --flag");
    assert!(parsed.is_terminal);
    assert!(parsed.enabled);
    let kde_off = "[Desktop Entry]\nName=K\nX-KDE-autostart-enabled=False\n";
    assert!(!DesktopAutostart::parse_file(kde_off, "k.desktop", StartupSource::User).enabled);
}

#[test]
fn test_validate_errors() {
    let mut req = CreateStartupRequest::default();
    assert_eq!(DesktopAutostart::validate_request(&req), Err(StartupError::EmptyName));
    req.name = " A ".to_string();
    assert_eq!(DesktopAutostart::validate_request(&req), Err(StartupError::EmptyCommand));
    req.command = "run".to_string();
    req.comment = "line\nbreak".to_string();
    assert_eq!(DesktopAutostart::validate_request(&req), Err(StartupError::ControlCharacters));
    req.comment = "fine".to_string();
    assert_eq!(DesktopAutostart::validate_request(&req), Ok(()));
}

#[test]
fn test_home_expansion_and_quoting() {
    let mut req = CreateStartupRequest::default();
    req.name = "X".to_string();
    req.command = "~/bin/tool".to_string();
    assert_eq!(DesktopAutostart::expanded_command(&req, "/home/u"), "/home/u/bin/tool");
    req.command = "env A=~/x B=~/y".to_string();
    assert_eq!(DesktopAutostart::expanded_command(&req, "/home/u"), "env A=/home/u/x B=/home/u/y");
    assert_eq!(DesktopAutostart::expanded_command(&req, ""), "env A=~/x B=~/y");
    req.command = "/opt/My App/run".to_string();
    let content = DesktopAutostart::generate_desktop_file_content(&req, "/home/u", true);
    assert!(content.contains("Exec=\"/opt/My App/run\"\n"));
    let content = DesktopAutostart::generate_desktop_file_content(&req, "/home/u", false);
    assert!(content.contains("Exec=/opt/My App/run\n"));
    assert!(content.contains("Icon=application-x-executable\n"));
}

#[test]
fn test_autostart_dirs() {
    assert_eq!(
        DesktopAutostart::get_user_autostart_dir(Some("/cfg"), Some("/home/u")),
        "/cfg/autostart"
    );
    assert_eq!(
        DesktopAutostart::get_user_autostart_dir(Some(""), Some("/home/u")),
        "/home/u/.config/autostart"
    );
    assert_eq!(DesktopAutostart::get_user_autostart_dir(None, None), ".config/autostart");
    assert_eq!(
        DesktopAutostart::get_system_autostart_dirs(Some("/etc/xdg::/usr/local/etc/xdg")),
        vec!["/etc/xdg/autostart".to_string(), "/usr/local/etc/xdg/autostart".to_string()]
    );
    assert_eq!(
        DesktopAutostart::get_system_autostart_dirs(None),
        vec!["/etc/xdg/autostart".to_string()]
    );
}

#[test]
fn test_toggle_content() {
    let original = "[Desktop Entry]\nName=A\n  Hidden=true\n";
    let on = toggle_content(original, true);
    assert_eq!(
        on,
        "[Desktop Entry]\nName=A\nHidden=false\nX-GNOME-Autostart-enabled=true\nX-KDE-autostart-enabled=true\n"
    );
    let parsed = DesktopAutostart::parse_file(&on, "a.desktop", StartupSource::User);
    assert!(parsed.enabled);
    let off = toggle_content(&on, false);
    let parsed = DesktopAutostart::parse_file(&off, "a.desktop", StartupSource::User);
    assert!(!parsed.enabled);
}

#[test]
fn test_write_and_manage_entries() {
    let mut req = CreateStartupRequest::default();
    req.name = "My App!".to_string();
    req.command = "/usr/bin/app".to_string();
    let w = DesktopAutostart::write_user_autostart_entry(&req, "/home/u/.config/autostart", "/home/u", false).unwrap();
    assert_eq!(w.path, "/home/u/.config/autostart/my_app_.desktop");

    let sys = DesktopAutostart::parse_file("[Desktop Entry]\nName=beta\n", "/etc/xdg/autostart/b.desktop", StartupSource::System);
    let sys_a = DesktopAutostart::parse_file("[Desktop Entry]\nName=Alpha\n", "/etc/xdg/autostart/a.desktop", StartupSource::System);
    let user_b = DesktopAutostart::parse_file("[Desktop Entry]\nName=Beta user\nHidden=true\n", "/home/u/.config/autostart/b.desktop", StartupSource::User);
    let items = StartupScanner::scan_all(vec![sys, sys_a], vec![user_b]);
    assert_eq!(items.len(), 2);
    assert_eq!(items[0].name, "Alpha");
    assert_eq!(items[1].name, "Beta user");
    assert_eq!(items[1].source, StartupSource::User);

    let manager = StartupManager::new();
    assert_eq!(manager.toggle_item(&items, "user:b.desktop").unwrap().name, "Beta user");
    assert_eq!(manager.toggle_item(&items, "nope").unwrap_err(), StartupError::NotFound);
    let (path, disable) = manager.remove_item(&items, "system:a.desktop", "/home/u/.config/autostart").unwrap();
    assert_eq!(path, "/home/u/.config/autostart/a.desktop");
    assert!(disable);

    let w = DesktopAutostart::toggle_entry(&items[0], false, "/home/u/.config/autostart", None, Some("[Desktop Entry]\nName=Alpha\n")).unwrap();
    assert_eq!(w.path, "/home/u/.config/autostart/a.desktop");
    assert!(w.content.contains("Hidden=true"));
    assert_eq!(
        DesktopAutostart::toggle_entry(&items[0], false, "/d", None, None).unwrap_err(),
        StartupError::MissingFile
    );

    let mut service = StartupService::new(items);
    assert_eq!(service.get_filtered_items().len(), 2);
    service.set_search_query("  ALP ".to_string());
    let found = service.get_filtered_items();
    assert_eq!(found.len(), 1);
    assert_eq!(found[0].name, "Alpha");
}

#[test]
fn test_browse_suggestion() {
    let s = browse_suggestion("/home/u/bin/backup.sh", true, "  ");
    assert_eq!(s.command, "/home/u/bin/backup.sh");
    assert_eq!(s.name.as_deref(), Some("Backup"));

    let s = browse_suggestion("/home/u/notes.txt", false, "");
    assert_eq!(s.command, "xdg-open \"/home/u/notes.txt\"");
    assert_eq!(s.name.as_deref(), Some("Notes"));

    let s = browse_suggestion("/home/u/.hidden", false, "Mine");
    assert!(s.name.is_none());

    let s = browse_suggestion("/opt/ülauncher", true, "");
    assert_eq!(s.name.as_deref(), Some("Ülauncher"));

    let s = browse_suggestion("/", true, "");
    assert!(s.name.is_none());
}

#[test]
fn test_switched_generated_entry_reads_back() {
    let req = CreateStartupRequest {
        name: " Sync ".to_string(),
        command: "~/bin/sync --all".to_string(),
        comment: "Keeps files in step".to_string(),
        icon: "".to_string(),
        terminal: true,
    };
    let content = DesktopAutostart::generate_desktop_file_content(&req, "/home/u", false);
    for enable in [false, true] {
        let switched = toggle_content(&content, enable);
        let item = DesktopAutostart::parse_file(&switched, "/home/u/.config/autostart/sync.desktop", StartupSource::User);
        assert_eq!(item.enabled, enable);
        assert_eq!(item.name, "Sync");
        assert_eq!(item.comment, "Keeps files in step");
        assert_eq!(item.icon, "application-x-executable");
        assert_eq!(item.command, "/home/u/bin/sync --all");
        assert!(item.is_terminal);
    }
}

#[test]
fn test_startup_cards() {
    let loc = LocalizationService::new();
    let user = DesktopAutostart::parse_file("[Desktop Entry]\nName=Tool\nExec=tool\nIcon=/i/tool.png\n", "/home/u/.config/autostart/tool.desktop", StartupSource::User);
    let sys = DesktopAutostart::parse_file("[Desktop Entry]\nName=Agent\nExec=agent --x\nComment=Background\n", "/etc/xdg/autostart/agent.desktop", StartupSource::System);
    let mut service = StartupService::new(vec![user, sys]);
    let cards = update_startup_ui(&service, &loc);
    assert_eq!(cards.len(), 2);
    assert_eq!(cards[0].name, "Tool");
    assert_eq!(cards[0].source_name, "User");
    assert_eq!(cards[0].source_code, "user");
    assert_eq!(cards[1].source_name, "System");
    assert_eq!(cards[1].source_code, "system");
    assert_eq!(cards[1].command, "agent --x");
    assert_eq!(cards[1].comment, "Background");
    service.set_search_query("background".to_string());
    let cards = update_startup_ui(&service, &loc);
    assert_eq!(cards.len(), 1);
    assert_eq!(cards[0].name, "Agent");
}

#[test]
fn test_switch_inside_entry_group() {
    let original = "[Desktop Entry]\nName=Agent\nExec=agent\n\n[Desktop Action Stop]\nName=Stop\nHidden=false\n";
    let off = toggle_content(original, false);
    assert_eq!(
        off,
        "[Desktop Entry]\nName=Agent\nExec=agent\n\nHidden=true\nX-GNOME-Autostart-enabled=false\nX-KDE-autostart-enabled=false\n[Desktop Action Stop]\nName=Stop\nHidden=true\n"
    );
    let item = DesktopAutostart::parse_file(&off, "/etc/xdg/autostart/agent.desktop", StartupSource::System);
    assert!(!item.enabled);
    let on = toggle_content(&off, true);
    let item = DesktopAutostart::parse_file(&on, "/etc/xdg/autostart/agent.desktop", StartupSource::System);
    assert!(item.enabled);
    assert_eq!(item.name, "Agent");
}

#[test]
fn test_switch_reads_back_with_crlf_lines() {
    let original = "[Desktop Entry]\r\nName=Agent\r\nExec=agent\r\nHidden=false\r\nX-GNOME-Autostart-enabled=true\r\n";
    for enable in [false, true] {
        let switched = toggle_content(original, enable);
        let item = DesktopAutostart::parse_file(&switched, "/home/u/.config/autostart/agent.desktop", StartupSource::User);
        assert_eq!(item.enabled, enable);
        assert_eq!(item.name, "Agent");
        assert_eq!(item.command, "agent");
    }
    let bare = "[Desktop Entry]\r\nName=Plain\r\nExec=plain\r\n";
    let off = toggle_content(bare, false);
    let item = DesktopAutostart::parse_file(&off, "/etc/xdg/autostart/plain.desktop", StartupSource::System);
    assert!(!item.enabled);
    assert_eq!(item.name, "Plain");
}
