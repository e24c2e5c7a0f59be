//! The built-in cleanup rules.

use vstd::prelude::*;
use crate::cleanup::models::{CleanupCategory, CleanupRule, RiskLevel};
use crate::paths::{join_path, path_join};
use crate::split::append_str;
use crate::text::{string_from_chars, vec_of};

verus! {

/// The built-in rules.
pub struct RuleRegistry;

/// The directory a rule's location lies in.
#[derive(Debug, Clone, Copy, PartialEq, Eq, Structural)]
pub enum BaseDir {
    Home,
    Cache,
    Config,
    Data,
    /// The downloads directory itself.
    Download,
}

/// The directories the rules are relative to.
pub struct RuleDirs {
    pub home: String,
    pub cache_dir: String,
    pub config_dir: String,
    pub data_dir: String,
    pub download_dir: String,
}

/// One built-in rule: its id, the short name its translation keys are
/// built from, its category, location and risk, and whether only the full
/// scan visits it.
pub struct RuleTemplate {
    pub id: Seq<char>,
    pub key: Seq<char>,
    pub category: CleanupCategory,
    pub base: BaseDir,
    pub rel: Seq<char>,
    pub deep: bool,
    pub risk: RiskLevel,
}

/// The location of a rule: `rel` under its base directory, or the
/// downloads directory itself.
pub open spec fn rule_location(base: BaseDir, rel: Seq<char>, dirs: RuleDirs) -> Seq<char> {
    match base {
        BaseDir::Home => path_join(dirs.home@, rel),
        BaseDir::Cache => path_join(dirs.cache_dir@, rel),
        BaseDir::Config => path_join(dirs.config_dir@, rel),
        BaseDir::Data => path_join(dirs.data_dir@, rel),
        BaseDir::Download => dirs.download_dir@,
    }
}

/// The rule is the template placed in the directories: its name key is
/// `cleanup.rule.<key>` and its description key that followed by `.desc`.
pub open spec fn rule_is(r: CleanupRule, t: RuleTemplate, dirs: RuleDirs) -> bool {
    &&& r.id@ == t.id
    &&& r.name_key@ == "cleanup.rule."@ + t.key
    &&& r.description_key@ == "cleanup.rule."@ + t.key + ".desc"@
    &&& r.category == t.category
    &&& r.base_path@ == rule_location(t.base, t.rel, dirs)
    &&& r.is_deep_scan == t.deep
    &&& r.safety_level == t.risk
}

/// The built-in rules, fast-scan rules first.
pub open spec fn rule_table() -> Seq<RuleTemplate> {
    seq![
        RuleTemplate { id: "thumbnails"@, key: "thumbnails"@, category: CleanupCategory::Thumbnails, base: BaseDir::Cache, rel: "thumbnails"@, deep: false, risk: RiskLevel::Safe },
        RuleTemplate { id: "firefox_cache"@, key: "firefox"@, category: CleanupCategory::BrowserCache, base: BaseDir::Cache, rel: "mozilla/firefox"@, deep: false, risk: RiskLevel::Safe },
        RuleTemplate { id: "chrome_cache"@, key: "chrome"@, category: CleanupCategory::BrowserCache, base: BaseDir::Cache, rel: "google-chrome"@, deep: false, risk: RiskLevel::Safe },
        RuleTemplate { id: "chromium_cache"@, key: "chromium"@, category: CleanupCategory::BrowserCache, base: BaseDir::Cache, rel: "chromium"@, deep: false, risk: RiskLevel::Safe },
        RuleTemplate { id: "brave_cache"@, key: "brave"@, category: CleanupCategory::BrowserCache, base: BaseDir::Cache, rel: "BraveSoftware"@, deep: false, risk: RiskLevel::Safe },
        RuleTemplate { id: "edge_cache"@, key: "edge"@, category: CleanupCategory::BrowserCache, base: BaseDir::Cache, rel: "microsoft-edge"@, deep: false, risk: RiskLevel::Safe },
        RuleTemplate { id: "opera_cache"@, key: "opera"@, category: CleanupCategory::BrowserCache, base: BaseDir::Cache, rel: "opera"@, deep: false, risk: RiskLevel::Safe },
        RuleTemplate { id: "vivaldi_cache"@, key: "vivaldi"@, category: CleanupCategory::BrowserCache, base: BaseDir::Cache, rel: "vivaldi"@, deep: false, risk: RiskLevel::Safe },
        RuleTemplate { id: "user_trash"@, key: "trash"@, category: CleanupCategory::Trash, base: BaseDir::Data, rel: "Trash/files"@, deep: false, risk: RiskLevel::Warning },
        RuleTemplate { id: "discord_cache"@, key: "discord"@, category: CleanupCategory::ApplicationCache, base: BaseDir::Config, rel: "discord/Cache"@, deep: false, risk: RiskLevel::Safe },
        RuleTemplate { id: "telegram_cache"@, key: "telegram"@, category: CleanupCategory::ApplicationCache, base: BaseDir::Data, rel: "TelegramDesktop/tdata/user_data/cache"@, deep: false, risk: RiskLevel::Safe },
        RuleTemplate { id: "spotify_cache"@, key: "spotify"@, category: CleanupCategory::ApplicationCache, base: BaseDir::Cache, rel: "spotify"@, deep: false, risk: RiskLevel::Safe },
        RuleTemplate { id: "steam_shader_cache"@, key: "steam"@, category: CleanupCategory::ApplicationCache, base: BaseDir::Data, rel: "Steam/steamapps/shadercache"@, deep: false, risk: RiskLevel::Safe },
        RuleTemplate { id: "yay_cache"@, key: "yay"@, category: CleanupCategory::PackageCache, base: BaseDir::Cache, rel: "yay"@, deep: false, risk: RiskLevel::Safe },
        RuleTemplate { id: "paru_cache"@, key: "paru"@, category: CleanupCategory::PackageCache, base: BaseDir::Cache, rel: "paru"@, deep: false, risk: RiskLevel::Safe },
        RuleTemplate { id: "flatpak_cache"@, key: "flatpak"@, category: CleanupCategory::PackageCache, base: BaseDir::Cache, rel: "flatpak"@, deep: false, risk: RiskLevel::Safe },
        RuleTemplate { id: "cargo_cache"@, key: "cargo"@, category: CleanupCategory::BuildCache, base: BaseDir::Home, rel: ".cargo/.package-cache"@, deep: false, risk: RiskLevel::Safe },
        RuleTemplate { id: "npm_cache"@, key: "npm"@, category: CleanupCategory::BuildCache, base: BaseDir::Home, rel: ".npm/_cacache"@, deep: false, risk: RiskLevel::Safe },
        RuleTemplate { id: "pip_cache"@, key: "pip"@, category: CleanupCategory::BuildCache, base: BaseDir::Cache, rel: "pip"@, deep: false, risk: RiskLevel::Safe },
        RuleTemplate { id: "go_build_cache"@, key: "gobuild"@, category: CleanupCategory::BuildCache, base: BaseDir::Cache, rel: "go-build"@, deep: false, risk: RiskLevel::Safe },
        RuleTemplate { id: "downloads_folder"@, key: "downloads"@, category: CleanupCategory::Downloads, base: BaseDir::Download, rel: ""@, deep: true, risk: RiskLevel::Warning },
        RuleTemplate { id: "vscode_cache"@, key: "vscode"@, category: CleanupCategory::ApplicationCache, base: BaseDir::Config, rel: "Code/Cache"@, deep: true, risk: RiskLevel::Safe },
        RuleTemplate { id: "jetbrains_cache"@, key: "jetbrains"@, category: CleanupCategory::ApplicationCache, base: BaseDir::Cache, rel: "JetBrains"@, deep: true, risk: RiskLevel::Safe },
        RuleTemplate { id: "mesa_shader_cache"@, key: "shaders"@, category: CleanupCategory::ApplicationCache, base: BaseDir::Cache, rel: "mesa_shader_cache"@, deep: true, risk: RiskLevel::Safe },
        RuleTemplate { id: "systemd_coredump"@, key: "coredumps"@, category: CleanupCategory::CrashReports, base: BaseDir::Data, rel: "systemd/coredump"@, deep: true, risk: RiskLevel::Safe },
    ]
}

/// Builds one rule.
fn make_rule(
    id: &str,
    key: &str,
    category: CleanupCategory,
    base: BaseDir,
    rel: &str,
    deep: bool,
    risk: RiskLevel,
    dirs: &RuleDirs,
) -> (r: CleanupRule)
    ensures
        rule_is(
            r,
            RuleTemplate {
                id: id@,
                key: key@,
                category,
                base,
                rel: rel@,
                deep,
                risk,
            },
            *dirs,
        ),
{
    let mut name = vec_of("cleanup.rule.");
    append_str(&mut name, key);
    let mut desc = name.clone();
    append_str(&mut desc, ".desc");
    let base_path = match base {
        BaseDir::Home => join_path(dirs.home.as_str(), rel),
        BaseDir::Cache => join_path(dirs.cache_dir.as_str(), rel),
        BaseDir::Config => join_path(dirs.config_dir.as_str(), rel),
        BaseDir::Data => join_path(dirs.data_dir.as_str(), rel),
        BaseDir::Download => dirs.download_dir.clone(),
    };
    CleanupRule {
        id: id.to_owned(),
        name_key: string_from_chars(&name),
        description_key: string_from_chars(&desc),
        category,
        base_path,
        is_deep_scan: deep,
        safety_level: risk,
    }
}

impl RuleRegistry {
    /// The built-in rules placed in the given directories, in the order of
    /// `rule_table`.
    #[verifier::rlimit(40)]
    pub fn get_default_rules(dirs: &RuleDirs) -> (r: Vec<CleanupRule>)
        ensures
            r@.len() == rule_table().len(),
            forall|i: int| 0 <= i < r@.len() ==> rule_is(#[trigger] r@[i], rule_table()[i], *dirs),
    {
        let mut v: Vec<CleanupRule> = Vec::new();
        v.push(make_rule("thumbnails", "thumbnails", CleanupCategory::Thumbnails, BaseDir::Cache, "thumbnails", false, RiskLevel::Safe, dirs));
        assert(rule_is(v@[0], rule_table()[0], *dirs));
        v.push(make_rule("firefox_cache", "firefox", CleanupCategory::BrowserCache, BaseDir::Cache, "mozilla/firefox", false, RiskLevel::Safe, dirs));
        assert(rule_is(v@[1], rule_table()[1], *dirs));
        v.push(make_rule("chrome_cache", "chrome", CleanupCategory::BrowserCache, BaseDir::Cache, "google-chrome", false, RiskLevel::Safe, dirs));
        assert(rule_is(v@[2], rule_table()[2], *dirs));
        v.push(make_rule("chromium_cache", "chromium", CleanupCategory::BrowserCache, BaseDir::Cache, "chromium", false, RiskLevel::Safe, dirs));
        assert(rule_is(v@[3], rule_table()[3], *dirs));
        v.push(make_rule("brave_cache", "brave", CleanupCategory::BrowserCache, BaseDir::Cache, "BraveSoftware", false, RiskLevel::Safe, dirs));
        assert(rule_is(v@[4], rule_table()[4], *dirs));
        v.push(make_rule("edge_cache", "edge", CleanupCategory::BrowserCache, BaseDir::Cache, "microsoft-edge", false, RiskLevel::Safe, dirs));
        assert(rule_is(v@[5], rule_table()[5], *dirs));
        v.push(make_rule("opera_cache", "opera", CleanupCategory::BrowserCache, BaseDir::Cache, "opera", false, RiskLevel::Safe, dirs));
        assert(rule_is(v@[6], rule_table()[6], *dirs));
        v.push(make_rule("vivaldi_cache", "vivaldi", CleanupCategory::BrowserCache, BaseDir::Cache, "vivaldi", false, RiskLevel::Safe, dirs));
        assert(rule_is(v@[7], rule_table()[7], *dirs));
        v.push(make_rule("user_trash", "trash", CleanupCategory::Trash, BaseDir::Data, "Trash/files", false, RiskLevel::Warning, dirs));
        assert(rule_is(v@[8], rule_table()[8], *dirs));
        v.push(make_rule("discord_cache", "discord", CleanupCategory::ApplicationCache, BaseDir::Config, "discord/Cache", false, RiskLevel::Safe, dirs));
        assert(rule_is(v@[9], rule_table()[9], *dirs));
        v.push(make_rule("telegram_cache", "telegram", CleanupCategory::ApplicationCache, BaseDir::Data, "TelegramDesktop/tdata/user_data/cache", false, RiskLevel::Safe, dirs));
        assert(rule_is(v@[10], rule_table()[10], *dirs));
        v.push(make_rule("spotify_cache", "spotify", CleanupCategory::ApplicationCache, BaseDir::Cache, "spotify", false, RiskLevel::Safe, dirs));
        assert(rule_is(v@[11], rule_table()[11], *dirs));
        v.push(make_rule("steam_shader_cache", "steam", CleanupCategory::ApplicationCache, BaseDir::Data, "Steam/steamapps/shadercache", false, RiskLevel::Safe, dirs));
        assert(rule_is(v@[12], rule_table()[12], *dirs));
        v.push(make_rule("yay_cache", "yay", CleanupCategory::PackageCache, BaseDir::Cache, "yay", false, RiskLevel::Safe, dirs));
        assert(rule_is(v@[13], rule_table()[13], *dirs));
        v.push(make_rule("paru_cache", "paru", CleanupCategory::PackageCache, BaseDir::Cache, "paru", false, RiskLevel::Safe, dirs));
        assert(rule_is(v@[14], rule_table()[14], *dirs));
        v.push(make_rule("flatpak_cache", "flatpak", CleanupCategory::PackageCache, BaseDir::Cache, "flatpak", false, RiskLevel::Safe, dirs));
        assert(rule_is(v@[15], rule_table()[15], *dirs));
        v.push(make_rule("cargo_cache", "cargo", CleanupCategory::BuildCache, BaseDir::Home, ".cargo/.package-cache", false, RiskLevel::Safe, dirs));
        assert(rule_is(v@[16], rule_table()[16], *dirs));
        v.push(make_rule("npm_cache", "npm", CleanupCategory::BuildCache, BaseDir::Home, ".npm/_cacache", false, RiskLevel::Safe, dirs));
        assert(rule_is(v@[17], rule_table()[17], *dirs));
        v.push(make_rule("pip_cache", "pip", CleanupCategory::BuildCache, BaseDir::Cache, "pip", false, RiskLevel::Safe, dirs));
        assert(rule_is(v@[18], rule_table()[18], *dirs));
        v.push(make_rule("go_build_cache", "gobuild", CleanupCategory::BuildCache, BaseDir::Cache, "go-build", false, RiskLevel::Safe, dirs));
        assert(rule_is(v@[19], rule_table()[19], *dirs));
        v.push(make_rule("downloads_folder", "downloads", CleanupCategory::Downloads, BaseDir::Download, "", true, RiskLevel::Warning, dirs));
        assert(rule_is(v@[20], rule_table()[20], *dirs));
        v.push(make_rule("vscode_cache", "vscode", CleanupCategory::ApplicationCache, BaseDir::Config, "Code/Cache", true, RiskLevel::Safe, dirs));
        assert(rule_is(v@[21], rule_table()[21], *dirs));
        v.push(make_rule("jetbrains_cache", "jetbrains", CleanupCategory::ApplicationCache, BaseDir::Cache, "JetBrains", true, RiskLevel::Safe, dirs));
        assert(rule_is(v@[22], rule_table()[22], *dirs));
        v.push(make_rule("mesa_shader_cache", "shaders", CleanupCategory::ApplicationCache, BaseDir::Cache, "mesa_shader_cache", true, RiskLevel::Safe, dirs));
        assert(rule_is(v@[23], rule_table()[23], *dirs));
        v.push(make_rule("systemd_coredump", "coredumps", CleanupCategory::CrashReports, BaseDir::Data, "systemd/coredump", true, RiskLevel::Safe, dirs));
        assert(rule_is(v@[24], rule_table()[24], *dirs));
        v
    }
}

} // verus!
