//! What every package manager provides, and what their listings have in
//! common.

use vstd::prelude::*;
use crate::applications::desktop_entries::{DesktopEntryInfo, InfoView, index_view, info_view, name_separators, separators, strip_chars, strip_chars_vec};
use crate::applications::models::{ApplicationItem, PackageSource, package_code};
use crate::keyed::KeyedList;
use crate::split::{append_str, find_char_from, lemma_find_char_from_bounds, views};
use crate::text::{contains, ends_with, lower_vec, lowercase, slice_of, starts_with, string_from_chars, vec_contains, vec_ends_with, vec_eq, vec_of, vec_starts_with};

verus! {

/// A package manager: its name and source, and the commands that remove a
/// package and describe it.
pub trait PackageManagerProvider {
    /// The name shown for the package manager.
    fn name(&self) -> (r: &'static str);

    /// The source its packages have.
    fn source(&self) -> (r: PackageSource);

    /// The program and arguments that remove a package (run through
    /// `pkexec` where `PolkitExecutor` says so).
    fn uninstall_command(&self, package_id: &str) -> (r: (String, Vec<String>));

    /// The program and arguments that describe a package.
    fn details_command(&self, package_id: &str) -> (r: (String, Vec<String>));
}

/// The desktop entry of a package: the one indexed under its lowercase
/// name, else under that name without separators.
pub open spec fn lookup_info(index: Map<Seq<char>, InfoView>, pkg: Seq<char>) -> Option<InfoView> {
    let lower = lowercase(pkg);
    let norm = strip_chars(lower, name_separators());
    if index.contains_key(lower) {
        Some(index[lower])
    } else if index.contains_key(norm) {
        Some(index[norm])
    } else {
        None
    }
}

/// The item listed for a package: described by its desktop entry when it
/// has one, else by the package name, run by the entry's command or the
/// package name.
pub open spec fn package_item_is(
    item: ApplicationItem,
    source: PackageSource,
    pkg: Seq<char>,
    version: Seq<char>,
    info: Option<InfoView>,
) -> bool {
    &&& item.id@ == package_code(source) + ":"@ + pkg
    &&& item.package_id@ == pkg
    &&& item.name@ == (match info {
        Some(i) => i.name,
        None => pkg,
    })
    &&& item.version@ == version
    &&& item.description@ == (match info {
        Some(i) => i.comment,
        None => seq![],
    })
    &&& item.source == source
    &&& item.icon@ == (match info {
        Some(i) => i.icon,
        None => seq![],
    })
    &&& item.icon_path is None
    &&& item.exec_cmd is Some
    &&& item.exec_cmd->0@ == (match info {
        Some(i) => i.command,
        None => pkg,
    })
    &&& item.installed_size_bytes is None
    &&& item.size_formatted@ == Seq::<char>::empty()
    &&& (match info {
        Some(i) => item.desktop_file_path is Some && item.desktop_file_path->0@ == i.file_path,
        None => item.desktop_file_path is None,
    })
    &&& item.is_desktop_app == (info is Some)
    &&& !item.selected
}

/// `str::split(c)`: the pieces between occurrences of `c`, empty ones
/// included.
pub open spec fn split_all(s: Seq<char>, c: char) -> Seq<Seq<char>>
    decreases s.len(),
{
    let j = find_char_from(s, c, 0);
    if j < s.len() {
        proof {
            lemma_find_char_from_bounds(s, c, 0);
        }
        seq![s.take(j)] + split_all(s.skip(j + 1), c)
    } else {
        seq![s]
    }
}

/// The strings as values.
pub open spec fn str_views(v: Seq<String>) -> Seq<Seq<char>> {
    Seq::new(v.len(), |i: int| v[i]@)
}

/// `split_all` computed.
pub fn split_all_vec(s: &Vec<char>, c: char) -> (r: Vec<Vec<char>>)
    ensures
        views(r@) == split_all(s@, c),
{
    let mut out: Vec<Vec<char>> = Vec::new();
    let mut start: usize = 0;
    assert(s@.skip(0) =~= s@);
    loop
        invariant
            start <= s.len(),
            split_all(s@, c) == views(out@) + split_all(s@.skip(start as int), c),
        decreases s.len() - start,
    {
        let mut j = start;
        while j < s.len() && s[j] != c
            invariant
                start <= j <= s.len(),
                forall|k: int| start <= k < j ==> s@[k] != c,
            decreases s.len() - j,
        {
            j += 1;
        }
        let ghost rest = s@.skip(start as int);
        proof {
            lemma_find_char_from_bounds(rest, c, 0);
            lemma_find_first(rest, c, j - start);
        }
        let piece = slice_of(s, start, j);
        assert(piece@ =~= rest.take(j - start));
        let ghost before = views(out@);
        out.push(piece);
        assert(views(out@) =~= before.push(piece@));
        if j < s.len() {
            assert(rest.skip(j - start + 1) =~= s@.skip(j + 1));
            start = j + 1;
        } else {
            assert(split_all(rest, c) =~= seq![rest]);
            assert(views(out@) =~= split_all(s@, c));
            return out;
        }
    }
}

proof fn lemma_find_first(s: Seq<char>, c: char, j: int)
    requires
        0 <= j <= s.len(),
        forall|k: int| 0 <= k < j ==> s[k] != c,
        j < s.len() ==> s[j] == c,
    ensures
        find_char_from(s, c, 0) == j,
{
    lemma_find_from(s, c, 0, j);
}

proof fn lemma_find_from(s: Seq<char>, c: char, i: int, j: int)
    requires
        0 <= i <= j <= s.len(),
        forall|k: int| i <= k < j ==> s[k] != c,
        j < s.len() ==> s[j] == c,
    ensures
        find_char_from(s, c, i) == j,
    decreases j - i,
{
    if i < j {
        lemma_find_from(s, c, i + 1, j);
    }
}

/// Whether the list holds the string.
pub fn contains_str(list: &Vec<String>, s: &Vec<char>) -> (r: bool)
    ensures
        r == str_views(list@).contains(s@),
{
    let mut k: usize = 0;
    while k < list.len()
        invariant
            k <= list@.len(),
            forall|m: int| 0 <= m < k ==> list@[m]@ != s@,
        decreases list.len() - k,
    {
        if vec_eq(&vec_of(list[k].as_str()), s) {
            assert(str_views(list@)[k as int] == s@);
            return true;
        }
        k += 1;
    }
    assert forall|m: int| 0 <= m < str_views(list@).len() implies str_views(list@)[m] != s@ by {
        assert(str_views(list@)[m] == list@[m]@);
    }
    false
}

/// `lookup_info` computed.
pub fn lookup<'a>(index: &'a KeyedList<DesktopEntryInfo>, pkg: &str) -> (r: Option<&'a DesktopEntryInfo>)
    ensures
        match r {
            Some(i) => lookup_info(index_view(index@), pkg@) == Some(info_view(*i)),
            None => lookup_info(index_view(index@), pkg@) is None,
        },
{
    let lower = lower_vec(&vec_of(pkg));
    let norm = strip_chars_vec(&lower, &separators());
    let ls = string_from_chars(&lower);
    let ns = string_from_chars(&norm);
    assert(index_view(index@).dom() =~= index@.dom());
    match index.get(ls.as_str()) {
        Some(i) => Some(i),
        None => index.get(ns.as_str()),
    }
}

/// The item for a package: see `package_item_is`.
pub fn package_item(source: PackageSource, pkg: &str, version: &str, info: Option<&DesktopEntryInfo>) -> (r: ApplicationItem)
    ensures
        package_item_is(
            r,
            source,
            pkg@,
            version@,
            match info {
                Some(i) => Some(info_view(*i)),
                None => None,
            },
        ),
{
    let mut id = vec_of(source.code());
    append_str(&mut id, ":");
    append_str(&mut id, pkg);
    match info {
        Some(i) => ApplicationItem {
            id: string_from_chars(&id),
            package_id: pkg.to_owned(),
            name: i.name.clone(),
            version: version.to_owned(),
            description: i.comment.clone(),
            source,
            icon: i.icon.clone(),
            icon_path: None,
            exec_cmd: Some(i.command.clone()),
            installed_size_bytes: None,
            size_formatted: String::new(),
            desktop_file_path: Some(i.file_path.clone()),
            is_desktop_app: true,
            selected: false,
        },
        None => ApplicationItem {
            id: string_from_chars(&id),
            package_id: pkg.to_owned(),
            name: pkg.to_owned(),
            version: version.to_owned(),
            description: String::new(),
            source,
            icon: String::new(),
            icon_path: None,
            exec_cmd: Some(pkg.to_owned()),
            installed_size_bytes: None,
            size_formatted: String::new(),
            desktop_file_path: None,
            is_desktop_app: false,
            selected: false,
        },
    }
}

/// `s` starts with one of the prefixes.
pub open spec fn any_prefix(s: Seq<char>, ps: Seq<Seq<char>>) -> bool {
    exists|i: int| 0 <= i < ps.len() && starts_with(s, #[trigger] ps[i])
}

/// `s` ends with one of the suffixes.
pub open spec fn any_suffix(s: Seq<char>, ps: Seq<Seq<char>>) -> bool {
    exists|i: int| 0 <= i < ps.len() && ends_with(s, #[trigger] ps[i])
}

/// `any_prefix` computed.
pub fn has_any_prefix(s: &Vec<char>, ps: &Vec<&str>) -> (r: bool)
    ensures
        r == any_prefix(s@, Seq::new(ps@.len(), |i: int| ps@[i]@)),
{
    let ghost pv = Seq::new(ps@.len(), |i: int| ps@[i]@);
    let mut k: usize = 0;
    while k < ps.len()
        invariant
            k <= ps@.len(),
            pv == Seq::new(ps@.len(), |i: int| ps@[i]@),
            forall|m: int| 0 <= m < k ==> !starts_with(s@, #[trigger] pv[m]),
        decreases ps.len() - k,
    {
        if vec_starts_with(s, &vec_of(ps[k])) {
            assert(starts_with(s@, pv[k as int]));
            return true;
        }
        k += 1;
    }
    false
}

/// `any_suffix` computed.
pub fn has_any_suffix(s: &Vec<char>, ps: &Vec<&str>) -> (r: bool)
    ensures
        r == any_suffix(s@, Seq::new(ps@.len(), |i: int| ps@[i]@)),
{
    let ghost pv = Seq::new(ps@.len(), |i: int| ps@[i]@);
    let mut k: usize = 0;
    while k < ps.len()
        invariant
            k <= ps@.len(),
            pv == Seq::new(ps@.len(), |i: int| ps@[i]@),
            forall|m: int| 0 <= m < k ==> !ends_with(s@, #[trigger] pv[m]),
        decreases ps.len() - k,
    {
        if vec_ends_with(s, &vec_of(ps[k])) {
            assert(ends_with(s@, pv[k as int]));
            return true;
        }
        k += 1;
    }
    false
}

/// Prefixes of Arch packages that are not applications.
pub open spec fn arch_excluded_prefixes() -> Seq<Seq<char>> {
    seq![
        "ttf-"@, "otf-"@, "noto-"@, "font-"@, "caestelia-"@, "kvantum-"@, "plasma5-themes-"@,
        "plasma6-themes-"@, "gtk-theme-"@, "lib32-"@, "lib"@, "glibc"@, "linux-"@,
    ]
}

/// Suffixes of Arch packages that are not applications.
pub open spec fn arch_excluded_suffixes() -> Seq<Seq<char>> {
    seq!["-theme"@, "-icon-theme"@, "-icons"@, "-cursor"@, "-cursors"@, "-wallpapers"@]
}

/// An Arch package (by its lowercase name) that is a font, theme, icon or
/// cursor set, library, kernel or `darkly` style rather than an application.
pub open spec fn arch_excluded(pkg: Seq<char>) -> bool {
    let l = lowercase(pkg);
    any_prefix(l, arch_excluded_prefixes()) || any_suffix(l, arch_excluded_suffixes()) || contains(
        l,
        "darkly"@,
    )
}

/// `arch_excluded` computed.
pub fn is_arch_excluded(pkg: &str) -> (r: bool)
    ensures
        r == arch_excluded(pkg@),
{
    let l = lower_vec(&vec_of(pkg));
    let ps = vec![
        "ttf-", "otf-", "noto-", "font-", "caestelia-", "kvantum-", "plasma5-themes-",
        "plasma6-themes-", "gtk-theme-", "lib32-", "lib", "glibc", "linux-",
    ];
    assert(Seq::new(ps@.len(), |i: int| ps@[i]@) =~= arch_excluded_prefixes());
    let ss = vec!["-theme", "-icon-theme", "-icons", "-cursor", "-cursors", "-wallpapers"];
    assert(Seq::new(ss@.len(), |i: int| ss@[i]@) =~= arch_excluded_suffixes());
    has_any_prefix(&l, &ps) || has_any_suffix(&l, &ss) || vec_contains(&l, &vec_of("darkly"))
}

} // verus!
