//! Listing, filtering, paging and acting on installed applications.

use vstd::prelude::*;
use crate::applications::desktop_entries::{DesktopEntryRegistry, copied_lines, shortcut_content, shortcut_file_name};
use crate::applications::models::{ApplicationItem, PackageSource};
use crate::applications::polkit::PolkitExecutor;
use crate::applications::traits::{PackageManagerProvider, str_views};
use crate::applications::{aur::AurProvider, dpkg::DpkgProvider, flatpak::FlatpakProvider, pacman::PacmanProvider, snap::SnapProvider};
use crate::applications::rpm::{RpmProvider, rpm_frontend};
use crate::paths::{file_name, file_name_of, path_join};
use crate::sort::{KeyOrder, stable_sort, stable_sort_vec};
use crate::split::{lines, views, words, words_vec};
use crate::startup::desktop::EntryWrite;
use crate::text::{contains, lemma_lex_total, lemma_lex_trans, lex_le, lower_vec, lowercase, string_from_chars, trim, trim_vec, vec_contains, vec_eq, vec_lex_le, vec_of};

verus! {

/// The package managers consulted, in order.
#[derive(Debug)]
pub struct ApplicationManager {
    providers: Vec<PackageSource>,
}

/// Why an action on an application could not be prepared.
#[derive(Debug, Clone, Copy, PartialEq, Eq, Structural)]
pub enum AppError {
    /// No package manager handles the application's source.
    NoProvider,
    /// The application has neither a desktop entry nor a command.
    NoCommand,
    /// No application has the id.
    NotFound,
}

/// Desktop applications first, then by lowercase name.
impl KeyOrder for ApplicationItem {
    open spec fn key_le(self, other: Self) -> bool {
        (self.is_desktop_app && !other.is_desktop_app) || (self.is_desktop_app
            == other.is_desktop_app && lex_le(lowercase(self.name@), lowercase(other.name@)))
    }

    proof fn lemma_key_total(a: Self, b: Self) {
        lemma_lex_total(lowercase(a.name@), lowercase(b.name@));
    }

    proof fn lemma_key_trans(a: Self, b: Self, c: Self) {
        if a.is_desktop_app == b.is_desktop_app && b.is_desktop_app == c.is_desktop_app {
            lemma_lex_trans(lowercase(a.name@), lowercase(b.name@), lowercase(c.name@));
        }
    }

    fn le(&self, other: &Self) -> (r: bool) {
        if self.is_desktop_app != other.is_desktop_app {
            self.is_desktop_app
        } else {
            let a = lower_vec(&vec_of(self.name.as_str()));
            let b = lower_vec(&vec_of(other.name.as_str()));
            vec_lex_le(&a, &b)
        }
    }
}

/// Some earlier application has the id.
pub open spec fn id_seen(s: Seq<ApplicationItem>, id: Seq<char>) -> bool {
    exists|i: int| 0 <= i < s.len() && s[i].id@ == id
}

/// The applications with each id kept once, at its first occurrence.
pub open spec fn unique_by_id(s: Seq<ApplicationItem>) -> Seq<ApplicationItem>
    decreases s.len(),
{
    if s.len() == 0 {
        seq![]
    } else {
        let u = unique_by_id(s.drop_last());
        if id_seen(u, s.last().id@) {
            u
        } else {
            u.push(s.last())
        }
    }
}

/// The listings of all package managers, concatenated in order.
pub open spec fn concat_listings(ls: Seq<Vec<ApplicationItem>>) -> Seq<ApplicationItem>
    decreases ls.len(),
{
    if ls.len() == 0 {
        seq![]
    } else {
        concat_listings(ls.drop_last()) + ls.last()@
    }
}

/// An application matches a search and a source filter: the source, when
/// given, is its own, and the trimmed, lowercase query, when not empty,
/// occurs in its lowercase name, package id or description.
pub open spec fn app_matches(app: ApplicationItem, query: Seq<char>, source: Option<PackageSource>) -> bool {
    let q = lowercase(trim(query));
    &&& (match source {
        Some(s) => app.source == s,
        None => true,
    })
    &&& (q.len() == 0 || contains(lowercase(app.name@), q) || contains(lowercase(app.package_id@), q)
        || contains(lowercase(app.description@), q))
}

/// The applications that match, in order.
pub open spec fn matching_apps(s: Seq<ApplicationItem>, query: Seq<char>, source: Option<PackageSource>) -> Seq<ApplicationItem>
    decreases s.len(),
{
    if s.len() == 0 {
        seq![]
    } else if app_matches(s.last(), query, source) {
        matching_apps(s.drop_last(), query, source).push(s.last())
    } else {
        matching_apps(s.drop_last(), query, source)
    }
}

/// The sources whose packages can be removed here.
pub open spec fn removable_source(s: PackageSource) -> bool {
    s == PackageSource::Pacman || s == PackageSource::Aur || s == PackageSource::Flatpak || s
        == PackageSource::Dpkg || s == PackageSource::Rpm || s == PackageSource::Snap
}

/// The program and arguments that remove a package of a removable
/// source: the package manager's removal command through `pkexec`, except
/// Flatpak's, which runs as it is.
pub open spec fn removal_command(source: PackageSource, id: Seq<char>, rpm: RpmProvider) -> (Seq<char>, Seq<Seq<char>>) {
    match source {
        PackageSource::Pacman => ("pkexec"@, seq!["pacman"@, "-Rns"@, "--noconfirm"@, id]),
        PackageSource::Aur => ("pkexec"@, seq!["pacman"@, "-Rns"@, "--noconfirm"@, id]),
        PackageSource::Dpkg => ("pkexec"@, seq!["apt-get"@, "remove"@, "-y"@, id]),
        PackageSource::Rpm => ("pkexec"@, seq![rpm_frontend(rpm), "remove"@, "-y"@, id]),
        PackageSource::Snap => ("pkexec"@, seq!["snap"@, "remove"@, id]),
        _ => ("flatpak"@, seq!["uninstall"@, "-y"@, id]),
    }
}

/// The program and arguments that describe a package of a removable source.
pub open spec fn details_command_of(source: PackageSource, id: Seq<char>) -> (Seq<char>, Seq<Seq<char>>) {
    match source {
        PackageSource::Pacman => ("pacman"@, seq!["-Qi"@, id]),
        PackageSource::Aur => ("pacman"@, seq!["-Qi"@, id]),
        PackageSource::Dpkg => ("dpkg"@, seq!["-s"@, id]),
        PackageSource::Rpm => ("rpm"@, seq!["-qi"@, id]),
        PackageSource::Snap => ("snap"@, seq!["info"@, id]),
        _ => ("flatpak"@, seq!["info"@, id]),
    }
}

/// The number of pages of `n` items: at least one.
pub open spec fn page_count(n: nat, page_size: nat) -> nat {
    if n == 0 {
        1
    } else {
        ((n + page_size - 1) / page_size as int) as nat
    }
}

/// The page shown for a requested page: clamped to the pages there are.
pub open spec fn clamp_page(page: nat, pages: nat) -> nat {
    if page < 1 {
        1
    } else if page > pages {
        pages
    } else {
        page
    }
}

/// The first index of a page.
pub open spec fn page_start(page: nat, page_size: nat) -> int {
    (page - 1) * page_size
}

/// The index after the last of a page.
pub open spec fn page_end(page: nat, page_size: nat, n: nat) -> int {
    if page_start(page, page_size) + page_size < n {
        page_start(page, page_size) + page_size
    } else {
        n as int
    }
}

impl ApplicationManager {
    /// The package managers, in the order they are consulted.
    pub fn new() -> (r: Self)
        ensures
            r.provider_sources() == seq![
                PackageSource::Pacman,
                PackageSource::Aur,
                PackageSource::Flatpak,
                PackageSource::Dpkg,
                PackageSource::Rpm,
                PackageSource::Snap,
            ],
    {
        let providers = vec![
            PackageSource::Pacman,
            PackageSource::Aur,
            PackageSource::Flatpak,
            PackageSource::Dpkg,
            PackageSource::Rpm,
            PackageSource::Snap,
        ];
        ApplicationManager { providers }
    }

    /// The package managers' sources, in order.
    pub closed spec fn provider_sources(&self) -> Seq<PackageSource> {
        self.providers@
    }

    /// All applications: the listings of the package managers in order,
    /// each id kept once (its first occurrence), desktop applications
    /// first and then by lowercase name.
    pub fn list_all(&self, listings: Vec<Vec<ApplicationItem>>) -> (r: Vec<ApplicationItem>)
        ensures
            r@ == stable_sort(unique_by_id(concat_listings(listings@))),
    {
        let mut all: Vec<ApplicationItem> = Vec::new();
        let mut k: usize = 0;
        while k < listings.len()
            invariant
                k <= listings@.len(),
                all@ == unique_by_id(concat_listings(listings@.take(k as int))),
            decreases listings.len() - k,
        {
            let list = &listings[k];
            let ghost base = concat_listings(listings@.take(k as int));
            assert(listings@.take(k + 1).drop_last() =~= listings@.take(k as int));
            let mut i: usize = 0;
            assert(base + list@.take(0) =~= base);
            while i < list.len()
                invariant
                    i <= list@.len(),
                    all@ == unique_by_id(base + list@.take(i as int)),
                decreases list.len() - i,
            {
                let item = &list[i];
                let key = vec_of(item.id.as_str());
                let ghost t = base + list@.take(i + 1);
                assert(t.drop_last() =~= base + list@.take(i as int));
                assert(t.last() == *item);
                let mut j: usize = 0;
                while j < all.len() && !vec_eq(&vec_of(all[j].id.as_str()), &key)
                    invariant
                        j <= all@.len(),
                        key@ == item.id@,
                        forall|m: int| 0 <= m < j ==> all@[m].id@ != item.id@,
                    decreases all.len() - j,
                {
                    j += 1;
                }
                if j == all.len() {
                    all.push(item.clone());
                } else {
                    assert(id_seen(all@, item.id@));
                }
                i += 1;
            }
            assert(list@.take(i as int) =~= list@);
            k += 1;
        }
        assert(listings@.take(k as int) =~= listings@);
        stable_sort_vec(all)
    }

    /// The applications of the given source (when one is given) matching
    /// the search, in order.
    pub fn filter_apps(apps: &Vec<ApplicationItem>, query: &str, source_filter: Option<PackageSource>) -> (r: Vec<ApplicationItem>)
        ensures
            r@ == matching_apps(apps@, query@, source_filter),
    {
        let q = lower_vec(&trim_vec(&vec_of(query)));
        let mut out: Vec<ApplicationItem> = Vec::new();
        let mut i: usize = 0;
        while i < apps.len()
            invariant
                i <= apps@.len(),
                q@ == lowercase(trim(query@)),
                out@ == matching_apps(apps@.take(i as int), query@, source_filter),
            decreases apps.len() - i,
        {
            let app = &apps[i];
            let source_ok = match source_filter {
                Some(s) => app.source == s,
                None => true,
            };
            let query_ok = q.len() == 0 || vec_contains(&lower_vec(&vec_of(app.name.as_str())), &q)
                || vec_contains(&lower_vec(&vec_of(app.package_id.as_str())), &q) || vec_contains(
                &lower_vec(&vec_of(app.description.as_str())),
                &q,
            );
            assert(apps@.take(i + 1).drop_last() =~= apps@.take(i as int));
            if source_ok && query_ok {
                out.push(app.clone());
            }
            i += 1;
        }
        assert(apps@.take(i as int) =~= apps@);
        out
    }

    /// One page of the applications: the page asked for, clamped to the
    /// pages there are, with the page shown and the number of pages.
    pub fn paginate_apps(apps: &Vec<ApplicationItem>, page: usize, page_size: usize) -> (r: (Vec<ApplicationItem>, usize, usize))
        requires
            page_size > 0 || apps@.len() == 0,
        ensures
            r.2 == page_count(apps@.len(), page_size as nat),
            r.1 == clamp_page(page as nat, r.2 as nat),
            r.0@ == (if page_start(r.1 as nat, page_size as nat) < apps@.len() {
                apps@.subrange(
                    page_start(r.1 as nat, page_size as nat),
                    page_end(r.1 as nat, page_size as nat, apps@.len()),
                )
            } else {
                Seq::<ApplicationItem>::empty()
            }),
    {
        let total = apps.len();
        let pages = if total == 0 {
            1
        } else {
            (total - 1) / page_size + 1
        };
        proof {
            if total > 0 {
                lemma_pages_bound(total as nat, page_size as nat);
                lemma_page_count_div(total as nat, page_size as nat);
            }
        }
        let current = if page < 1 {
            1
        } else if page > pages {
            pages
        } else {
            page
        };
        assert((current - 1) * page_size <= total) by (nonlinear_arith)
            requires
                1 <= current <= pages,
                total == 0 ==> pages == 1,
                total > 0 ==> (pages - 1) * page_size < total,
        ;
        let start = (current - 1) * page_size;
        let end = if page_size < total - start {
            start + page_size
        } else {
            total
        };
        let mut slice: Vec<ApplicationItem> = Vec::new();
        if start < total {
            let mut i = start;
            while i < end
                invariant
                    start <= i <= end <= apps@.len(),
                    slice@ == apps@.subrange(start as int, i as int),
                decreases end - i,
            {
                slice.push(apps[i].clone());
                i += 1;
            }
        }
        (slice, current, pages)
    }

    /// The shortcut for an application: see
    /// `DesktopEntryRegistry::create_desktop_shortcut`.
    pub fn create_shortcut(app: &ApplicationItem, desktop_dir: &str, original: Option<&str>) -> (r: EntryWrite)
        ensures
            r.path@ == path_join(desktop_dir@, shortcut_file_name(app.name@)),
            r.content@ == match original {
                Some(c) => copied_lines(lines(c@), app.icon@),
                None => shortcut_content(*app),
            },
    {
        DesktopEntryRegistry::create_desktop_shortcut(app, desktop_dir, original)
    }

    /// The command that removes an application: see `removal_command`,
    /// with the RPM front end that `rpm` found; `NoProvider` when no package
    /// manager consulted handles its source.
    pub fn uninstall_app(&self, app: &ApplicationItem, rpm: &RpmProvider) -> (r: Result<(String, Vec<String>), AppError>)
        ensures
            r is Ok <==> (self.provider_sources().contains(app.source) && removable_source(
                app.source,
            )),
            r matches Ok(c) ==> c.0@ == removal_command(app.source, app.package_id@, *rpm).0 && str_views(
                c.1@,
            ) == removal_command(app.source, app.package_id@, *rpm).1,
            r matches Err(e) ==> e == AppError::NoProvider,
    {
        let mut i: usize = 0;
        while i < self.providers.len()
            invariant
                i <= self.providers@.len(),
                forall|k: int| 0 <= k < i ==> self.providers@[k] != app.source,
            decreases self.providers.len() - i,
        {
            if self.providers[i] == app.source {
                let id = app.package_id.as_str();
                proof {
                    reveal_strlit("flatpak");
                    reveal_strlit("pkexec");
                }
                let cmd = match app.source {
                    PackageSource::Pacman => {
                        let (p, a) = PacmanProvider::new().uninstall_command(id);
                        PolkitExecutor::pkexec_command(p.as_str(), &a)
                    },
                    PackageSource::Aur => {
                        let (p, a) = AurProvider::new().uninstall_command(id);
                        PolkitExecutor::pkexec_command(p.as_str(), &a)
                    },
                    PackageSource::Dpkg => {
                        let (p, a) = DpkgProvider::new().uninstall_command(id);
                        PolkitExecutor::pkexec_command(p.as_str(), &a)
                    },
                    PackageSource::Rpm => {
                        let (p, a) = rpm.uninstall_command(id);
                        PolkitExecutor::pkexec_command(p.as_str(), &a)
                    },
                    PackageSource::Snap => {
                        let (p, a) = SnapProvider::new().uninstall_command(id);
                        PolkitExecutor::pkexec_command(p.as_str(), &a)
                    },
                    PackageSource::Flatpak => FlatpakProvider::new().uninstall_command(id),
                    _ => {
                        return Err(AppError::NoProvider);
                    },
                };
                return Ok(cmd);
            }
            i += 1;
        }
        Err(AppError::NoProvider)
    }
}

/// How an application is started: with `gtk-launch` and its desktop
/// file's name when it has a desktop file, and else (or when that fails)
/// by its command split into program and arguments.
#[derive(Debug)]
pub struct LaunchPlan {
    pub gtk_launch: Option<String>,
    pub command: Option<(String, Vec<String>)>,
}

/// The plan that starts an application: `gtk-launch` with its desktop
/// file's name (empty when the path has none) when it has a desktop file,
/// and its command split at whitespace into program and arguments when the
/// command has a word.
pub open spec fn launch_plan_is(r: LaunchPlan, app: ApplicationItem) -> bool {
    &&& match app.desktop_file_path {
        Some(p) => r.gtk_launch is Some && r.gtk_launch->0@ == match file_name_of(p@) {
            Some(n) => n,
            None => Seq::<char>::empty(),
        },
        None => r.gtk_launch is None,
    }
    &&& match app.exec_cmd {
        Some(e) => {
            let ws = words(e@);
            if ws.len() > 0 {
                match r.command {
                    Some((prog, args)) => prog@ == ws[0] && str_views(args@) == ws.drop_first(),
                    None => false,
                }
            } else {
                r.command is None
            }
        },
        None => r.command is None,
    }
}

impl ApplicationManager {
    /// The command that describes an application's package (see
    /// `details_command_of`); none when no package manager consulted handles
    /// its source.
    pub fn get_details(&self, app: &ApplicationItem) -> (r: Option<(String, Vec<String>)>)
        ensures
            r is Some <==> (self.provider_sources().contains(app.source) && removable_source(
                app.source,
            )),
            r matches Some(c) ==> c.0@ == details_command_of(app.source, app.package_id@).0 && str_views(
                c.1@,
            ) == details_command_of(app.source, app.package_id@).1,
    {
        let mut i: usize = 0;
        while i < self.providers.len()
            invariant
                i <= self.providers@.len(),
                forall|k: int| 0 <= k < i ==> self.providers@[k] != app.source,
            decreases self.providers.len() - i,
        {
            if self.providers[i] == app.source {
                let id = app.package_id.as_str();
                return match app.source {
                    PackageSource::Pacman => Some(PacmanProvider::new().details_command(id)),
                    PackageSource::Aur => Some(AurProvider::new().details_command(id)),
                    PackageSource::Dpkg => Some(DpkgProvider::new().details_command(id)),
                    PackageSource::Rpm => Some(RpmProvider::new().details_command(id)),
                    PackageSource::Snap => Some(SnapProvider::new().details_command(id)),
                    PackageSource::Flatpak => Some(FlatpakProvider::new().details_command(id)),
                    _ => None,
                };
            }
            i += 1;
        }
        None
    }

    /// How to start an application: see `LaunchPlan`. The desktop file's
    /// name is empty when its path has none; the command is split at
    /// whitespace and left out when it has no word.
    pub fn launch_app(app: &ApplicationItem) -> (r: LaunchPlan)
        ensures
            launch_plan_is(r, *app),
    {
        let gtk_launch = match &app.desktop_file_path {
            Some(p) => match file_name(p.as_str()) {
                Some(n) => Some(n),
                None => Some(String::new()),
            },
            None => None,
        };
        let command = match &app.exec_cmd {
            Some(e) => {
                let ws = words_vec(&vec_of(e.as_str()));
                if ws.len() > 0 {
                    let mut args: Vec<String> = Vec::new();
                    let mut i: usize = 1;
                    while i < ws.len()
                        invariant
                            1 <= i <= ws.len(),
                            str_views(args@) == views(ws@).subrange(1, i as int),
                        decreases ws.len() - i,
                    {
                        let ghost before = str_views(args@);
                        args.push(string_from_chars(&ws[i]));
                        assert(str_views(args@) =~= before.push(ws@[i as int]@));
                        assert(views(ws@).subrange(1, i + 1) =~= views(ws@).subrange(1, i as int).push(
                            ws@[i as int]@,
                        ));
                        i += 1;
                    }
                    assert(views(ws@).subrange(1, i as int) =~= views(ws@).drop_first());
                    assert(views(ws@)[0] == ws@[0]@);
                    Some((string_from_chars(&ws[0]), args))
                } else {
                    None
                }
            },
            None => None,
        };
        LaunchPlan { gtk_launch, command }
    }
}

/// The number of pages is the smallest that holds all items.
proof fn lemma_pages_bound(n: nat, page_size: nat)
    requires
        n > 0,
        page_size > 0,
    ensures
        ((n + page_size - 1) / page_size as int) >= 1,
        (((n + page_size - 1) / page_size as int) - 1) * page_size < n,
        ((n + page_size - 1) / page_size as int) * page_size >= n,
{
    let p = (n + page_size - 1) / page_size as int;
    vstd::arithmetic::div_mod::lemma_fundamental_div_mod(n + page_size - 1, page_size as int);
    let r = (n + page_size - 1) % page_size as int;
    assert(p * page_size + r == n + page_size - 1);
    assert(0 <= r < page_size);
    assert(p >= 1) by (nonlinear_arith)
        requires
            p * page_size + r == n + page_size - 1,
            0 <= r < page_size,
            n > 0,
    ;
    assert((p - 1) * page_size < n) by (nonlinear_arith)
        requires
            p * page_size + r == n + page_size - 1,
            0 <= r,
    ;
}

/// The number of pages, counted without a sum that may overflow.
proof fn lemma_page_count_div(n: nat, page_size: nat)
    requires
        n > 0,
        page_size > 0,
    ensures
        (n + page_size - 1) / page_size as int == (n - 1) / (page_size as int) + 1,
{
    let d = page_size as int;
    let x = n - 1;
    let y = n + page_size - 1;
    vstd::arithmetic::div_mod::lemma_div_plus_one(x, d);
    assert(d + x == y);
    assert(1 + x / d == y / d);
}

/// The pages hold every item and no more: the last page starts before the
/// end of the list (when it is not empty) and ends at it.
pub proof fn lemma_last_page(n: nat, page_size: nat)
    requires
        page_size > 0,
    ensures
        n > 0 ==> page_start(page_count(n, page_size), page_size) < n,
        page_end(page_count(n, page_size), page_size, n) == n,
        page_count(n, page_size) >= 1,
{
    if n > 0 {
        lemma_pages_bound(n, page_size);
        let p = page_count(n, page_size);
        assert(page_start(p, page_size) + page_size >= n) by (nonlinear_arith)
            requires
                p * page_size >= n,
                page_start(p, page_size) == (p - 1) * page_size,
                p >= 1,
        ;
    }
}

/// Every item lies on exactly one page: the item at index `i` is on page
/// `i / page_size + 1`, which is one of the pages, and on no other page.
pub proof fn lemma_pages_partition(n: nat, page_size: nat, i: nat, page: nat)
    requires
        page_size > 0,
        i < n,
        1 <= page <= page_count(n, page_size),
    ensures
        (page_start(page, page_size) <= i < page_end(page, page_size, n)) <==> page == i / page_size
            + 1,
        i / page_size + 1 <= page_count(n, page_size),
{
    lemma_pages_bound(n, page_size);
    let q = (i as int) / (page_size as int);
    vstd::arithmetic::div_mod::lemma_fundamental_div_mod(i as int, page_size as int);
    let r = (i as int) % (page_size as int);
    assert(q * page_size + r == i);
    let pc = (n + page_size - 1) / page_size as int;
    assert(q + 1 <= pc) by (nonlinear_arith)
        requires
            q * page_size + r == i,
            0 <= r < page_size,
            i < n,
            pc * page_size >= n,
    ;
    if page == q + 1 {
        assert(page_start(page, page_size) == q * page_size) by (nonlinear_arith)
            requires
                page == q + 1,
        ;
    } else if page < q + 1 {
        assert((page - 1) * page_size + page_size <= q * page_size) by (nonlinear_arith)
            requires
                page < q + 1,
                page >= 1,
                page_size > 0,
        ;
    } else {
        assert((page - 1) * page_size >= (q + 1) * page_size) by (nonlinear_arith)
            requires
                page > q + 1,
                page_size > 0,
        ;
        assert((q + 1) * page_size > i) by (nonlinear_arith)
            requires
                q * page_size + r == i,
                r < page_size,
        ;
    }
}

/// The search keeps exactly the applications of the chosen source (any
/// source when none is chosen) whose lowercase name, package id or
/// description contains the trimmed, lowercase query (every one when the
/// query is blank); what it returns comes from the list searched.
pub proof fn lemma_filter_keeps_matches(
    apps: Seq<ApplicationItem>,
    query: Seq<char>,
    source: Option<PackageSource>,
)
    ensures
        ({
            let r = matching_apps(apps, query, source);
            let q = lowercase(trim(query));
            &&& forall|i: int|
                0 <= i < apps.len() && (source is None || apps[i].source == source->0) && (q.len()
                    == 0 || contains(lowercase(apps[i].name@), q) || contains(
                    lowercase(apps[i].package_id@),
                    q,
                ) || contains(lowercase(apps[i].description@), q)) ==> r.contains(#[trigger] apps[i])
            &&& forall|j: int|
                0 <= j < r.len() ==> apps.contains(#[trigger] r[j]) && (source is None || r[j].source
                    == source->0) && (q.len() == 0 || contains(lowercase(r[j].name@), q) || contains(
                    lowercase(r[j].package_id@),
                    q,
                ) || contains(lowercase(r[j].description@), q))
            &&& r.len() <= apps.len()
        }),
    decreases apps.len(),
{
    if apps.len() > 0 {
        let init = apps.drop_last();
        lemma_filter_keeps_matches(init, query, source);
        let r0 = matching_apps(init, query, source);
        let r = matching_apps(apps, query, source);
        assert forall|i: int| 0 <= i < init.len() implies apps[i] == #[trigger] init[i] by {}
        assert forall|x: ApplicationItem| r0.contains(x) implies r.contains(x) by {
            let k = choose|k: int| 0 <= k < r0.len() && r0[k] == x;
            if r != r0 {
                assert(r[k] == r0[k]);
            }
        }
        assert forall|x: ApplicationItem| init.contains(x) implies apps.contains(x) by {
            let k = choose|k: int| 0 <= k < init.len() && init[k] == x;
            assert(apps[k] == x);
        }
        let q = lowercase(trim(query));
        let last = apps.last();
        assert forall|i: int|
            0 <= i < apps.len() && (source is None || apps[i].source == source->0) && (q.len()
                == 0 || contains(lowercase(apps[i].name@), q) || contains(
                lowercase(apps[i].package_id@),
                q,
            ) || contains(lowercase(apps[i].description@), q)) implies r.contains(#[trigger] apps[i]) by {
            if i < init.len() {
                assert(init[i] == apps[i]);
                assert(r0.contains(init[i]));
            } else {
                assert(apps[i] == last);
                assert(app_matches(last, query, source));
                assert(r == r0.push(last));
                assert(r[r.len() - 1] == last);
            }
        }
        assert forall|j: int| 0 <= j < r.len() implies apps.contains(#[trigger] r[j]) && (source is None
            || r[j].source == source->0) && (q.len() == 0 || contains(lowercase(r[j].name@), q)
            || contains(lowercase(r[j].package_id@), q) || contains(
            lowercase(r[j].description@),
            q,
        )) by {
            if app_matches(last, query, source) {
                assert(r == r0.push(last));
                if j < r0.len() {
                    assert(r[j] == r0[j]);
                } else {
                    assert(r[j] == last);
                    assert(apps[apps.len() - 1] == last);
                }
            } else {
                assert(r == r0);
            }
        }
    }
}

} // verus!
