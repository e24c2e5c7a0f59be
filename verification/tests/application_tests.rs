use tidy_cleaner::applications::desktop_entries::DesktopEntryRegistry;
use tidy_cleaner::applications::flatpak::FlatpakProvider;
use tidy_cleaner::applications::manager::ApplicationManager;
use tidy_cleaner::applications::models::{ApplicationItem, PackageSource};
use tidy_cleaner::applications::pacman::PacmanProvider;
use tidy_cleaner::applications::polkit::{PolkitError, PolkitExecutor};
use tidy_cleaner::applications::service::ApplicationService;
use tidy_cleaner::applications::snap::SnapProvider;
use tidy_cleaner::applications::aur::AurProvider;
use tidy_cleaner::applications::rpm::RpmProvider;
use tidy_cleaner::keyed::KeyedList;
use tidy_cleaner::applications::manager::AppError;
use tidy_cleaner::applications::ui_bridge::{handle_applications_event, page_of_ui, update_applications_view, ApplicationsEvent};

#[test]
fn test_desktop_file_parsing() {
    let content = "[Desktop Entry]\n\
        Type=Application\n\
        Name=Test Editor\n\
        Exec=test-editor %U\n\
        Icon=text-editor\n\
        Comment=A test editor application\n\
        Categories=Utility;TextEditor;\n";

    let parsed = DesktopEntryRegistry::parse_desktop_file(content, "/tmp/test-app.desktop");
    assert_eq!(parsed.name, "Test Editor");
    assert_eq!(parsed.command, "test-editor");
    assert_eq!(parsed.icon, "text-editor");
    assert_eq!(parsed.comment, "A test editor application");
    assert!(!parsed.no_display);
}

fn app(n: usize) -> ApplicationItem {
    ApplicationItem {
        id: format!("pacman:{}", n),
        package_id: format!("{}", n),
        name: format!("{}", n),
        version: "1".to_string(),
        description: String::new(),
        source: PackageSource::Pacman,
        icon: String::new(),
        icon_path: None,
        exec_cmd: None,
        installed_size_bytes: None,
        size_formatted: String::new(),
        desktop_file_path: None,
        is_desktop_app: false,
        selected: false,
    }
}

#[test]
fn test_pagination_logic() {
    let items: Vec<i32> = (1..=25).collect();
    let page_size = 10;

    // Page 1
    let total_pages = items.len().div_ceil(page_size);
    assert_eq!(total_pages, 3);

    let start = 0;
    let end = (start + page_size).min(items.len());
    assert_eq!(&items[start..end], &[1, 2, 3, 4, 5, 6, 7, 8, 9, 10]);

    // Page 3
    let start_p3 = 20;
    let end_p3 = (start_p3 + page_size).min(items.len());
    assert_eq!(&items[start_p3..end_p3], &[21, 22, 23, 24, 25]);

    let apps: Vec<ApplicationItem> = (1..=25).map(app).collect();
    let (page1, current, pages) = ApplicationManager::paginate_apps(&apps, 1, page_size);
    assert_eq!((current, pages), (1, 3));
    assert_eq!(page1.iter().map(|a| a.name.clone()).collect::<Vec<_>>(), (1..=10).map(|n| n.to_string()).collect::<Vec<_>>());
    let (page3, current, _) = ApplicationManager::paginate_apps(&apps, 3, page_size);
    assert_eq!(current, 3);
    assert_eq!(page3.iter().map(|a| a.name.clone()).collect::<Vec<_>>(), (21..=25).map(|n| n.to_string()).collect::<Vec<_>>());
    let (clamped, current, _) = ApplicationManager::paginate_apps(&apps, 9, page_size);
    assert_eq!(current, 3);
    assert_eq!(clamped.len(), 5);
    let (_, current, _) = ApplicationManager::paginate_apps(&apps, 0, page_size);
    assert_eq!(current, 1);
    let (empty, current, pages) = ApplicationManager::paginate_apps(&vec![], 4, page_size);
    assert!(empty.is_empty());
    assert_eq!((current, pages), (1, 1));
}

fn index_of(files: &[(&str, &str)]) -> KeyedList<tidy_cleaner::applications::desktop_entries::DesktopEntryInfo> {
    let files: Vec<(String, String)> = files.iter().map(|(p, c)| (p.to_string(), c.to_string())).collect();
    DesktopEntryRegistry::scan_system_entries(&files)
}

#[test]
fn test_entry_index() {
    let index = index_of(&[
        ("/usr/share/applications/org.gnome.Text-Editor.desktop", "[Desktop Entry]\nName=Text Editor\nExec=\"/usr/bin/gnome-text-editor\" %U\nIcon=org.gnome.TextEditor\n"),
        ("/usr/share/applications/hidden.desktop", "[Desktop Entry]\nName=Hidden\nNoDisplay=true\n"),
    ]);
    assert!(index.get("org.gnome.text-editor").is_some());
    assert!(index.get("orggnometexteditor").is_some());
    assert!(index.get("gnome-text-editor").is_some());
    assert!(index.get("gnometexteditor").is_some());
    assert!(index.get("texteditor").is_some());
    assert!(index.get("hidden").is_none());
}

#[test]
fn test_pacman_listing() {
    let index = index_of(&[("/usr/share/applications/firefox.desktop", "[Desktop Entry]\nName=Firefox\nExec=firefox %u\nIcon=firefox\nComment=Browse\n")]);
    let explicit = PacmanProvider::get_explicit_packages("firefox 1\nhtop 3.3\nttf-dejavu 2\nnovis 1\n");
    let bins = vec!["/usr/bin/htop".to_string(), "/usr/bin/ttf-dejavu".to_string()];
    let out = "firefox 120.0-1\nhtop 3.3.0-1\nttf-dejavu 2.37-1\nnovis 1.0-1\nzlib 1.3-1\nbroken\n";
    let apps = PacmanProvider::parse_installed_packages(out, &index, &explicit, &bins);
    let ids: Vec<&str> = apps.iter().map(|a| a.id.as_str()).collect();
    assert_eq!(ids, vec!["pacman:firefox", "pacman:htop"]);
    assert_eq!(apps[0].name, "Firefox");
    assert!(apps[0].is_desktop_app);
    assert_eq!(apps[0].exec_cmd.as_deref(), Some("firefox"));
    assert_eq!(apps[1].name, "htop");
    assert_eq!(apps[1].exec_cmd.as_deref(), Some("htop"));
    assert_eq!(apps[1].version, "3.3.0-1");
}

#[test]
fn test_other_listings() {
    let index = index_of(&[]);
    let bins = vec!["/usr/bin/yay".to_string(), "/usr/bin/vscodium".to_string(), "/snap/bin/spotify".to_string()];
    let aur = AurProvider::parse_aur_packages("yay 12\nvscodium-bin 1.9\nlibfoo 1\n", &index, &bins);
    assert_eq!(aur.iter().map(|a| a.id.as_str()).collect::<Vec<_>>(), vec!["aur:yay", "aur:vscodium-bin"]);

    let rpm = RpmProvider::parse_installed_packages("yay\t1-2\nlibx\t1-1\nnotab 1\n", &index, &bins);
    assert_eq!(rpm.len(), 1);
    assert_eq!(rpm[0].version, "1-2");

    let snap = SnapProvider::parse_installed_packages("Name Version Rev\ncore22 2024 1\nspotify 1.2 3\nfoo 2 1\n", &index, &bins);
    assert_eq!(snap.len(), 2);
    assert_eq!(snap[0].exec_cmd.as_deref(), Some("/snap/bin/spotify"));
    assert!(snap[0].is_desktop_app);
    assert_eq!(snap[1].exec_cmd.as_deref(), Some("foo"));
    assert!(!snap[1].is_desktop_app);

    let flat = FlatpakProvider::parse_flatpak_list("Boxes\torg.gnome.Boxes\t45.0\tVirtual machines\t10 MB\tflathub\nbad\n", &index);
    assert_eq!(flat.len(), 1);
    assert_eq!(flat[0].id, "flatpak:org.gnome.Boxes");
    assert_eq!(flat[0].icon, "org.gnome.Boxes");
    assert_eq!(flat[0].exec_cmd.as_deref(), Some("flatpak run org.gnome.Boxes"));
    assert_eq!(flat[0].size_formatted, "10 MB");
}

#[test]
fn test_manager_and_service() {
    let manager = ApplicationManager::new();
    let mut a = app(1);
    a.name = "beta".to_string();
    let mut b = app(2);
    b.name = "Alpha".to_string();
    let mut c = app(3);
    c.name = "zed".to_string();
    c.is_desktop_app = true;
    let dup = app(1);
    let all = manager.list_all(vec![vec![a, b], vec![c, dup]]);
    assert_eq!(all.iter().map(|x| x.name.as_str()).collect::<Vec<_>>(), vec!["zed", "Alpha", "beta"]);

    let found = ApplicationManager::filter_apps(&all, " ALP ", None);
    assert_eq!(found.len(), 1);
    assert_eq!(ApplicationManager::filter_apps(&all, "", Some(PackageSource::Snap)).len(), 0);

    let (prog, args) = manager.uninstall_app(&all[0], &RpmProvider::new()).unwrap();
    assert_eq!(prog, "pkexec");
    assert_eq!(args, vec!["pacman", "-Rns", "--noconfirm", "3"]);
    let mut deb = app(9);
    deb.source = PackageSource::Dpkg;
    let (prog, args) = manager.uninstall_app(&deb, &RpmProvider::new()).unwrap();
    assert_eq!(prog, "pkexec");
    assert_eq!(args, vec!["apt-get", "remove", "-y", "9"]);
    assert_eq!(manager.get_details(&deb).unwrap(), ("dpkg".to_string(), vec!["-s".to_string(), "9".to_string()]));
    let mut image = app(10);
    image.source = PackageSource::AppImage;
    assert!(manager.uninstall_app(&image, &RpmProvider::new()).is_err());
    assert_eq!(manager.get_details(&all[0]).unwrap().0, "pacman");

    let mut service = ApplicationService::new();
    service.refresh_installed_apps(all);
    service.set_page(2);
    service.set_search_query("a".to_string());
    let (page, current, pages, total) = service.get_current_view();
    assert_eq!((current, pages, total), (1, 1, 2));
    assert_eq!(page.len(), 2);
    service.toggle_app_selection("pacman:2");
    assert_eq!(service.get_selected_apps().len(), 1);
    service.select_all();
    assert_eq!(service.get_selected_apps().len(), 3);
    service.deselect_all();
    assert!(service.get_selected_apps().is_empty());
    assert!(service.find_app("pacman:3").is_some());
}

#[test]
fn test_shortcut_and_icons() {
    let mut a = app(1);
    a.name = "My App".to_string();
    a.exec_cmd = Some("myapp --x".to_string());
    let w = ApplicationManager::create_shortcut(&a, "/home/u/Desktop", None);
    assert_eq!(w.path, "/home/u/Desktop/My_App.desktop");
    assert!(w.content.contains("Exec=myapp --x\n"));
    assert!(w.content.contains("Icon=application-x-executable\n"));
    a.icon = "myicon".to_string();
    let w = ApplicationManager::create_shortcut(&a, "/home/u/Desktop", Some("[Desktop Entry]\nIcon=old\nName=A"));
    assert_eq!(w.content, "[Desktop Entry]\nIcon=myicon\nName=A\n");

    let themes = vec!["/usr/share/icons/Papirus".to_string()];
    let files = vec!["/usr/share/icons/Papirus/apps/48x48/myicon.svg".to_string(), "/usr/share/pixmaps/myicon.png".to_string()];
    assert_eq!(
        DesktopEntryRegistry::resolve_icon_path(" myicon ", Some("/home/u"), &themes, &files),
        Some("/usr/share/icons/Papirus/apps/48x48/myicon.svg".to_string())
    );
    assert_eq!(
        DesktopEntryRegistry::resolve_icon_path("myicon", Some("/home/u"), &vec![], &files),
        Some("/usr/share/pixmaps/myicon.png".to_string())
    );
    let hicolor = vec!["/home/u/.local/share/icons/hicolor/scalable/apps/myicon.svg".to_string()];
    assert_eq!(
        DesktopEntryRegistry::resolve_icon_path("myicon", Some("/home/u"), &themes, &hicolor),
        Some(hicolor[0].clone())
    );
    assert_eq!(DesktopEntryRegistry::resolve_icon_path("", None, &vec![], &files), None);

    let plan = ApplicationManager::launch_app(&a);
    assert!(plan.gtk_launch.is_none());
    assert_eq!(plan.command, Some(("myapp".to_string(), vec!["--x".to_string()])));
}

#[test]
fn test_polkit() {
    assert_eq!(PolkitExecutor::run_with_pkexec(true, Some(0), ""), Ok(()));
    assert_eq!(PolkitExecutor::run_with_pkexec(false, Some(126), ""), Err(PolkitError::AuthorizationDenied));
    assert_eq!(
        PolkitExecutor::run_with_pkexec(false, None, " boom \n"),
        Err(PolkitError::Failed(-1, "boom".to_string()))
    );
    let (p, a) = PolkitExecutor::pkexec_command("snap", &vec!["remove".to_string(), "x".to_string()]);
    assert_eq!(p, "pkexec");
    assert_eq!(a, vec!["snap", "remove", "x"]);
    assert_eq!(PackageSource::Dpkg.as_str(), "APT");
    assert_eq!(PackageSource::AppImage.code(), "appimage");
}

#[test]
fn test_commands_by_source() {
    let manager = ApplicationManager::new();
    let mut r = app(4);
    r.source = PackageSource::Rpm;
    r.package_id = "gimp".to_string();
    let zypper = RpmProvider { dnf: false, zypper: true, microdnf: false };
    let (prog, args) = manager.uninstall_app(&r, &zypper).unwrap();
    assert_eq!(prog, "pkexec");
    assert_eq!(args, vec!["zypper", "remove", "-y", "gimp"]);
    let (prog, args) = manager.uninstall_app(&r, &RpmProvider::new()).unwrap();
    assert_eq!(prog, "pkexec");
    assert_eq!(args, vec!["dnf", "remove", "-y", "gimp"]);
    assert_eq!(manager.get_details(&r).unwrap(), ("rpm".to_string(), vec!["-qi".to_string(), "gimp".to_string()]));

    let mut f = app(5);
    f.source = PackageSource::Flatpak;
    f.package_id = "org.x.App".to_string();
    let (prog, args) = manager.uninstall_app(&f, &zypper).unwrap();
    assert_eq!(prog, "flatpak");
    assert_eq!(args, vec!["uninstall", "-y", "org.x.App"]);
    assert_eq!(manager.get_details(&f).unwrap().1, vec!["info".to_string(), "org.x.App".to_string()]);

    let mut s = app(6);
    s.source = PackageSource::Snap;
    assert_eq!(manager.uninstall_app(&s, &zypper).unwrap().1, vec!["snap", "remove", "6"]);
    let mut a = app(7);
    a.source = PackageSource::AppImage;
    assert_eq!(manager.uninstall_app(&a, &zypper).unwrap_err(), AppError::NoProvider);
    assert!(manager.get_details(&a).is_none());
}

#[test]
fn test_actions_by_id() {
    let mut service = ApplicationService::new();
    let mut a = app(1);
    a.exec_cmd = Some("editor --new".to_string());
    a.desktop_file_path = Some("/usr/share/applications/editor.desktop".to_string());
    a.name = "Editor".to_string();
    service.refresh_installed_apps(vec![a, app(2)]);

    let plan = service.launch_app_by_id("pacman:1").unwrap();
    assert_eq!(plan.gtk_launch.as_deref(), Some("editor.desktop"));
    assert_eq!(plan.command, Some(("editor".to_string(), vec!["--new".to_string()])));
    assert!(service.launch_app_by_id("none").is_none());

    let w = service.create_shortcut_by_id("pacman:1", "/home/u/Desktop", None).unwrap();
    assert!(w.path.starts_with("/home/u/Desktop/"));
    assert_eq!(service.create_shortcut_by_id("x", "/home/u/Desktop", None).unwrap_err(), AppError::NotFound);

    let (prog, args) = service.get_details_by_id("pacman:2").unwrap();
    assert_eq!(prog, "pacman");
    assert_eq!(args, vec!["-Qi".to_string(), "2".to_string()]);
    assert!(service.get_details_by_id("x").is_none());
}

#[test]
fn test_applications_page_events() {
    assert_eq!(page_of_ui(3), 3);
    assert_eq!(page_of_ui(0), 1);
    assert_eq!(page_of_ui(1), 1);

    let mut service = ApplicationService::new();
    service.refresh_installed_apps((0..25).map(app).collect());
    handle_applications_event(&mut service, ApplicationsEvent::PageChange(3));
    let view = update_applications_view(&service);
    assert_eq!((view.current_page, view.total_pages, view.total_items), (3, 3, 25));
    assert_eq!(view.apps.len(), 5);
    assert_eq!(view.apps[0].source_name, "Pacman");
    assert_eq!(view.apps[0].source_code, "pacman");

    handle_applications_event(&mut service, ApplicationsEvent::Search("2".to_string()));
    let view = update_applications_view(&service);
    assert_eq!(view.current_page, 1);
    assert_eq!(view.total_items, 7);

    handle_applications_event(&mut service, ApplicationsEvent::ToggleApp("pacman:2".to_string()));
    assert_eq!(update_applications_view(&service).selected_count, 1);
    handle_applications_event(&mut service, ApplicationsEvent::SelectAll);
    assert_eq!(update_applications_view(&service).selected_count, 25);
    handle_applications_event(&mut service, ApplicationsEvent::DeselectAll);
    assert_eq!(update_applications_view(&service).selected_count, 0);
}

#[test]
fn test_paging_any_page_size() {
    let apps: Vec<ApplicationItem> = (0..5).map(app).collect();
    let (page, current, pages) = ApplicationManager::paginate_apps(&apps, 3, usize::MAX);
    assert_eq!((current, pages), (1, 1));
    assert_eq!(page.len(), 5);
    let (page, current, pages) = ApplicationManager::paginate_apps(&apps, usize::MAX, 2);
    assert_eq!((current, pages), (3, 3));
    assert_eq!(page.len(), 1);
    assert_eq!(page[0].id, "pacman:4");
}

#[test]
fn test_item_icons() {
    let mut a = app(1);
    a.icon = "/opt/a/icon.png".to_string();
    let mut b = app(2);
    b.icon = "editor".to_string();
    let c = app(3);
    let files = vec!["/opt/a/icon.png".to_string(), "/usr/share/pixmaps/editor.png".to_string()];
    let out = DesktopEntryRegistry::resolve_item_icons(vec![a, b, c], Some("/home/u"), &vec![], &files);
    assert_eq!(out.len(), 3);
    assert_eq!(out[0].icon_path.as_deref(), Some("/opt/a/icon.png"));
    assert_eq!(out[1].icon_path.as_deref(), Some("/usr/share/pixmaps/editor.png"));
    assert_eq!(out[2].icon_path, None);
    assert_eq!(out[1].id, "pacman:2");
}
