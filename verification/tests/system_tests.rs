use tidy_cleaner::filesystem::dialog::FileDialog;
use tidy_cleaner::filesystem::safety::{open_in_file_manager, validate_path_safety, FSError};
use tidy_cleaner::filesystem::xdg::{get_cache_dir, get_config_dir, get_data_dir, get_user_download_dir, home_dir};
use tidy_cleaner::logging::dirs_log_path;
use tidy_cleaner::system::disks::{display_disk_name, DiskCollector};
use tidy_cleaner::system::models::DiskReading;
use tidy_cleaner::system::os_info::OsInfoCollector;
use tidy_cleaner::numfmt::parse_u64;
use tidy_cleaner::system::dashboard::{cpu_cores_text, cpu_freq_text, gigabytes_text, gpu_name_text, gpu_vram_text};
use tidy_cleaner::system::gpu::GpuCollector;
use tidy_cleaner::system::history::{UsageHistory, HISTORY_CAPACITY};
use tidy_cleaner::system::temperature::TemperatureCollector;

#[test]
fn test_uptime_formatting() {
    assert_eq!(OsInfoCollector::format_uptime(45), "45s");
    assert_eq!(OsInfoCollector::format_uptime(125), "2m 5s");
    assert_eq!(OsInfoCollector::format_uptime(3665), "1h 1m 5s");
    assert_eq!(OsInfoCollector::format_uptime(90061), "1d 1h 1m 1s");
}

#[test]
fn test_bytes_formatting() {
    assert_eq!(OsInfoCollector::format_bytes(500), "500 B");
    assert_eq!(OsInfoCollector::format_bytes(1024 * 500), "500 KB");
    assert_eq!(OsInfoCollector::format_bytes(1024 * 1024 * 1024 * 2), "2.00 GB");
}

fn check(path: &str, home: &str) -> Result<String, FSError> {
    validate_path_safety(path, true, Ok(path.to_string()), Some(home.to_string()))
}

#[test]
fn test_forbidden_paths() {
    assert!(check("/etc", "/home/user").is_err());
    assert!(check("/usr", "/home/user").is_err());
    assert!(check("/boot", "/home/user").is_err());
    assert!(check("/", "/home/user").is_err());
}

#[test]
fn test_path_safety_verdicts() {
    assert_eq!(check("/etc", "/home/u"), Err(FSError::ForbiddenPath("/etc".to_string())));
    assert_eq!(check("/libfoo", "/home/u"), Err(FSError::ForbiddenPath("/libfoo".to_string())));
    assert_eq!(check("/home/u", "/home/u/"), Err(FSError::ForbiddenPath("/home/u".to_string())));
    assert_eq!(check("/home/u/.cache/x", "/home/u"), Ok("/home/u/.cache/x".to_string()));
    assert_eq!(check("/home/user2/x", "/home/user"), Err(FSError::OutOfBounds("/home/user2/x".to_string())));
    assert_eq!(check("/tmp/cleaner/a", "/home/u"), Ok("/tmp/cleaner/a".to_string()));
    assert_eq!(check("/mnt/data", "/home/u"), Err(FSError::OutOfBounds("/mnt/data".to_string())));
    assert_eq!(
        validate_path_safety("/home/u/x", true, Ok("/home/u/x".to_string()), None),
        Err(FSError::OutOfBounds("HOME is not set; refusing deletion".to_string()))
    );
    assert_eq!(
        validate_path_safety("/nope", false, Err("gone".to_string()), None),
        Err(FSError::NotFound("/nope".to_string()))
    );
    assert_eq!(
        validate_path_safety("/x", true, Err("denied".to_string()), None),
        Err(FSError::Io("denied".to_string()))
    );
    assert_eq!(open_in_file_manager("/a/b.txt", true, true, Some("/a".to_string())), Ok("/a".to_string()));
    assert_eq!(open_in_file_manager("/a", true, false, None), Ok("/a".to_string()));
    assert_eq!(open_in_file_manager("/a", false, false, None), Err(FSError::NotFound("/a".to_string())));
}

#[test]
fn test_xdg_dirs() {
    assert_eq!(home_dir(Some("/home/u")), "/home/u");
    assert_eq!(home_dir(None), "");
    assert_eq!(get_cache_dir(Some("/c"), Some("/home/u")), "/c");
    assert_eq!(get_cache_dir(Some(""), Some("/home/u")), "/home/u/.cache");
    assert_eq!(get_config_dir(None, Some("/home/u/")), "/home/u/.config");
    assert_eq!(get_data_dir(None, None), ".local/share");
    let config = "# comment\nXDG_DOWNLOAD_DIR=\"$HOME/Загрузки\"\nXDG_DESKTOP_DIR=\"$HOME/Desktop\"\n";
    let existing = vec!["/home/u/Загрузки".to_string()];
    assert_eq!(get_user_download_dir("/home/u", Some(config), None, &existing), "/home/u/Загрузки");
    assert_eq!(get_user_download_dir("/home/u", Some(config), None, &vec![]), "/home/u/Downloads");
    let existing = vec!["/data/dl".to_string(), "/home/u/Descargas".to_string()];
    assert_eq!(get_user_download_dir("/home/u", None, Some(" /data/dl\n"), &existing), "/data/dl");
    assert_eq!(get_user_download_dir("/home/u", None, None, &existing), "/home/u/Descargas");
    assert_eq!(dirs_log_path(Some("/home/u")), "/home/u/.local/share/cleaner/logs");
    assert_eq!(dirs_log_path(None), "./.local/share/cleaner/logs");
}

#[test]
fn test_file_dialog() {
    assert_eq!(FileDialog::start_dir(None), "/home");
    assert_eq!(FileDialog::zenity_filename_arg("/home/u"), "--filename=/home/u/");
    assert_eq!(FileDialog::pick_file(Some("  \n"), Some("/home/u/a.txt\n")), Some("/home/u/a.txt".to_string()));
    assert_eq!(FileDialog::pick_file(Some("/k.txt\n"), Some("/z.txt")), Some("/k.txt".to_string()));
    assert_eq!(FileDialog::pick_file(None, None), None);
}

fn reading(mount: &str, total: u64, avail: u64) -> DiskReading {
    DiskReading {
        name: "dev".to_string(),
        mount_point: mount.to_string(),
        file_system: "ext4".to_string(),
        total_bytes: total,
        available_bytes: avail,
    }
}

#[test]
fn test_collect_disks() {
    let gib = 1024 * 1024 * 1024;
    let disks = DiskCollector::collect_disks(vec![
        reading("/", 100 * gib, 40 * gib),
        reading("/boot", 2 * gib, gib),
        reading("/home", 100 * gib, 40 * gib),
        reading("/mnt/storage", 500 * gib, 100 * gib),
        reading("/small", 100, 10),
    ]);
    assert!(!disks.is_empty());
    assert_eq!(disks.len(), 2);
    assert_eq!(disks[0].mount_point, "/mnt/storage");
    assert_eq!(disks[0].used_bytes, 400 * gib);
    assert_eq!(disks[1].mount_point, "/");
    assert_eq!(display_disk_name("/mnt/storage/"), "storage");
}

fn chars(s: &str) -> Vec<char> {
    s.chars().collect()
}

#[test]
fn test_parse_u64() {
    assert_eq!(parse_u64(&chars("0")), Some(0));
    assert_eq!(parse_u64(&chars("8192")), Some(8192));
    assert_eq!(parse_u64(&chars("+42")), Some(42));
    assert_eq!(parse_u64(&chars("18446744073709551615")), Some(u64::MAX));
    assert_eq!(parse_u64(&chars("18446744073709551616")), None);
    assert_eq!(parse_u64(&chars("")), None);
    assert_eq!(parse_u64(&chars("+")), None);
    assert_eq!(parse_u64(&chars("-1")), None);
    assert_eq!(parse_u64(&chars("12a")), None);
    assert_eq!(parse_u64(&chars(" 1")), None);
    for t in ["0", "7", "+15", "99999", "18446744073709551615", "18446744073709551616", "x", "-0", ""] {
        assert_eq!(parse_u64(&chars(t)), t.parse::<u64>().ok());
    }
}

#[test]
fn test_gpu_collect() {
    let out = "35, NVIDIA GeForce RTX 3060, 1024, 12288\nignored line\n";
    let g = GpuCollector::parse_nvidia_output(out).unwrap();
    assert_eq!(g.name, "NVIDIA GeForce RTX 3060");
    assert_eq!(g.used_memory_mb, 1024);
    assert_eq!(g.total_memory_mb, 12288);
    let usage: f32 = g.usage_text.parse().unwrap_or(0.0);
    assert!(usage >= 0.0 && usage <= 100.0);

    let odd = GpuCollector::parse_nvidia_output("7,  Card , [N/A], 4096").unwrap();
    assert_eq!(odd.usage_text, "7");
    assert_eq!(odd.name, "Card");
    assert_eq!(odd.used_memory_mb, 0);
    assert_eq!(odd.total_memory_mb, 4096);

    assert!(GpuCollector::parse_nvidia_output("").is_none());
    assert!(GpuCollector::parse_nvidia_output("1, 2, 3").is_none());
}

#[test]
fn test_temperature_collector() {
    assert!(TemperatureCollector::is_cpu_sensor("Package id 0"));
    assert!(TemperatureCollector::is_cpu_sensor("k10temp Tctl"));
    assert!(TemperatureCollector::is_cpu_sensor("CPU"));
    assert!(TemperatureCollector::is_cpu_sensor("Core 3"));
    assert!(!TemperatureCollector::is_cpu_sensor("nvme Composite"));
    assert!(TemperatureCollector::is_cpu_zone("x86_pkg_temp"));
    assert!(TemperatureCollector::is_cpu_zone("cpu-thermal"));
    assert!(!TemperatureCollector::is_cpu_zone("acpitz"));
    assert!(!TemperatureCollector::is_cpu_zone("tctl"));
}

#[test]
fn test_cpu_history_capacity() {
    let mut history: UsageHistory<f32> = UsageHistory::new(0.0);
    assert_eq!(history.values().len(), HISTORY_CAPACITY);
    history.record(12.5);
    let values = history.values();
    assert_eq!(values.len(), HISTORY_CAPACITY);
    assert_eq!(values[HISTORY_CAPACITY - 1], 12.5);
}

#[test]
fn test_memory_collector() {
    let mut history: UsageHistory<f32> = UsageHistory::new(0.0);
    assert_eq!(history.values().len(), HISTORY_CAPACITY);
    for i in 0..30 {
        history.record(i as f32);
    }
    let values = history.values();
    assert_eq!(values.len(), HISTORY_CAPACITY);
    assert_eq!(values[0], 6.0);
    assert_eq!(values[HISTORY_CAPACITY - 1], 29.0);
}

#[test]
fn test_dashboard_texts() {
    assert_eq!(cpu_cores_text(16), "16");
    assert_eq!(cpu_freq_text(3600), "3600 MHz");
    assert_eq!(gpu_name_text(""), "N/A");
    assert_eq!(gpu_name_text("Radeon"), "Radeon");
    assert_eq!(gpu_vram_text(1024, 0), "N/A");
    assert_eq!(gpu_vram_text(1536, 8192), "1.5 / 8.0 GB");
    assert_eq!(gpu_vram_text(100, 12288), format!("{:.1} / {:.1} GB", 100u64 as f64 / 1024.0, 12288u64 as f64 / 1024.0));
    let gib: u64 = 1024 * 1024 * 1024;
    assert_eq!(gigabytes_text(16 * gib), "16.0");
    for b in [0u64, 123456789, 3 * gib / 2, 7_999_999_999, u64::MAX] {
        assert_eq!(gigabytes_text(b), format!("{:.1}", b as f64 / (1024.0 * 1024.0 * 1024.0)));
    }
}
