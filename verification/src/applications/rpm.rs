//! Packages installed with rpm (Fedora, openSUSE and relatives).

use vstd::prelude::*;
use crate::applications::desktop_entries::{DesktopEntryInfo, InfoView, index_view, info_view};
use crate::applications::models::{ApplicationItem, PackageSource};
use crate::applications::traits::{
    any_prefix, any_suffix, has_any_prefix, has_any_suffix, split_all, split_all_vec,
    PackageManagerProvider, arch_excluded, contains_str, is_arch_excluded, lookup, lookup_info,
    package_item, package_item_is, str_views,
};
use crate::keyed::KeyedList;
use crate::split::{append_str, lines, lines_vec, views, words, words_vec};
use crate::text::{lower_vec, lowercase, string_from_chars, vec_eq, vec_of};

verus! {

/// The rpm package database, with the front end that removes packages:
/// which of `dnf`, `zypper` and `microdnf` are available.
pub struct RpmProvider {
    pub dnf: bool,
    pub zypper: bool,
    pub microdnf: bool,
}

/// Prefixes of rpm packages that are not applications.
pub open spec fn rpm_excluded_prefixes() -> Seq<Seq<char>> {
    seq!["lib"@, "kernel-"@, "fonts-"@]
}

/// Suffixes of rpm packages that are not applications.
pub open spec fn rpm_excluded_suffixes() -> Seq<Seq<char>> {
    seq!["-theme"@, "-filesystem"@]
}

/// An rpm package (by its lowercase name) that is a library, kernel, font,
/// theme or file system package.
pub open spec fn rpm_excluded(pkg: Seq<char>) -> bool {
    let l = lowercase(pkg);
    any_prefix(l, rpm_excluded_prefixes()) || any_suffix(l, rpm_excluded_suffixes())
}

/// The packages of `rpm -qa` lines (`name<TAB>version-release`) that are
/// listed, each with its version and desktop entry: lines need two fields;
/// a package without a desktop entry is listed only when it is not excluded
/// and has a program `/usr/bin/<name>` (`bins` lists those that exist).
pub open spec fn rpm_selection(
    ls: Seq<Seq<char>>,
    index: Map<Seq<char>, InfoView>,
    bins: Seq<Seq<char>>,
) -> Seq<(Seq<char>, Seq<char>, Option<InfoView>)>
    decreases ls.len(),
{
    if ls.len() == 0 {
        seq![]
    } else {
        let rest = rpm_selection(ls.drop_last(), index, bins);
        let ps = split_all(ls.last(), '\t');
        if ps.len() < 2 {
            rest
        } else {
            let pkg = ps[0];
            let info = lookup_info(index, pkg);
            if info is Some || (!rpm_excluded(pkg) && bins.contains("/usr/bin/"@ + pkg)) {
                rest.push((pkg, ps[1], info))
            } else {
                rest
            }
        }
    }
}

/// The items are those of the selection, in order.
pub open spec fn items_of(items: Seq<ApplicationItem>, source: PackageSource, sel: Seq<(Seq<char>, Seq<char>, Option<InfoView>)>) -> bool {
    &&& items.len() == sel.len()
    &&& forall|i: int|
        0 <= i < items.len() ==> package_item_is(
            #[trigger] items[i],
            source,
            sel[i].0,
            sel[i].1,
            sel[i].2,
        )
}

/// The front end that removes packages: the first available of `dnf`,
/// `zypper` and `microdnf`, else `dnf`.
pub open spec fn rpm_frontend(p: RpmProvider) -> Seq<char> {
    if p.dnf {
        "dnf"@
    } else if p.zypper {
        "zypper"@
    } else if p.microdnf {
        "microdnf"@
    } else {
        "dnf"@
    }
}

/// Each entry of the selection is the package and version of some line,
/// with the desktop entry found for it, and one without a desktop entry
/// meets the condition for being listed without one; each line with a
/// package and a version that has a desktop entry or meets that condition
/// gives an entry.
proof fn lemma_rpm_selection_facts(
    ls: Seq<Seq<char>>,
    index: Map<Seq<char>, InfoView>,
    bins: Seq<Seq<char>>,
)
    ensures
        ({
            let sel = rpm_selection(ls, index, bins);
            forall|k: int|
                0 <= k < sel.len() ==> {
                    &&& (#[trigger] sel[k]).2 == lookup_info(index, sel[k].0)
                    &&& sel[k].2 is None ==> !rpm_excluded(sel[k].0) && bins.contains("/usr/bin/"@ + sel[k].0)
                    &&& exists|l: int|
                        0 <= l < ls.len() && split_all(#[trigger] ls[l], '\t').len() >= 2 && split_all(ls[l], '\t')[0]
                            == sel[k].0 && split_all(ls[l], '\t')[1] == sel[k].1
                }
        }),
        ({
            let sel = rpm_selection(ls, index, bins);
            forall|l: int|
                0 <= l < ls.len() && split_all(#[trigger] ls[l], '\t').len() >= 2 && (lookup_info(index, split_all(ls[l], '\t')[0]) is Some
                    || !rpm_excluded(split_all(ls[l], '\t')[0]) && bins.contains("/usr/bin/"@ + split_all(ls[l], '\t')[0])) ==> exists|k: int|
                    0 <= k < sel.len() && sel[k].0 == split_all(ls[l], '\t')[0] && sel[k].1 == split_all(ls[l], '\t')[1]
        }),
    decreases ls.len(),
{
    if ls.len() > 0 {
        let init = ls.drop_last();
        lemma_rpm_selection_facts(init, index, bins);
        let sel0 = rpm_selection(init, index, bins);
        let sel = rpm_selection(ls, index, bins);
        assert forall|k: int| 0 <= k < sel.len() implies {
            &&& (#[trigger] sel[k]).2 == lookup_info(index, sel[k].0)
            &&& sel[k].2 is None ==> !rpm_excluded(sel[k].0) && bins.contains("/usr/bin/"@ + sel[k].0)
            &&& exists|l: int|
                0 <= l < ls.len() && split_all(#[trigger] ls[l], '\t').len() >= 2 && split_all(ls[l], '\t')[0] == sel[k].0
                    && split_all(ls[l], '\t')[1] == sel[k].1
        } by {
            if k < sel0.len() {
                assert(sel[k] == sel0[k]);
                let l = choose|l: int|
                    0 <= l < init.len() && split_all(#[trigger] init[l], '\t').len() >= 2 && split_all(init[l], '\t')[0]
                        == sel0[k].0 && split_all(init[l], '\t')[1] == sel0[k].1;
                assert(ls[l] == init[l]);
            } else {
                assert(ls[ls.len() - 1] == ls.last());
            }
        }
        assert forall|l: int|
            0 <= l < ls.len() && split_all(#[trigger] ls[l], '\t').len() >= 2 && (lookup_info(index, split_all(ls[l], '\t')[0]) is Some
                || !rpm_excluded(split_all(ls[l], '\t')[0]) && bins.contains("/usr/bin/"@ + split_all(ls[l], '\t')[0])) implies exists|k: int|
            0 <= k < sel.len() && sel[k].0 == split_all(ls[l], '\t')[0] && sel[k].1 == split_all(ls[l], '\t')[1] by {
            if l < init.len() {
                assert(init[l] == ls[l]);
                let k = choose|k: int|
                    0 <= k < sel0.len() && sel0[k].0 == split_all(init[l], '\t')[0] && sel0[k].1 == split_all(init[l], '\t')[1];
                assert(sel[k] == sel0[k]);
            } else {
                assert(ls[l] == ls.last());
                assert(sel[sel0.len() as int].0 == split_all(ls[l], '\t')[0]);
            }
        }
    }
}

/// What rpm lists is made of applications: an item without a desktop
/// entry is a package that is not excluded, with its program `/usr/bin/<name>` among `bins`; an item with one is a package for which
/// the index has a desktop entry. Each item is the package and version of
/// a line of the output, and every line with a package and a version that
/// has a desktop entry or meets that condition gives an item.
pub proof fn lemma_rpm_lists_applications(
    output: Seq<char>,
    index: Map<Seq<char>, InfoView>,
    bins: Seq<Seq<char>>,
    items: Seq<ApplicationItem>,
)
    requires
        items_of(items, PackageSource::Rpm, rpm_selection(lines(output), index, bins)),
    ensures
        forall|k: int|
            0 <= k < items.len() && !(#[trigger] items[k]).is_desktop_app ==> !rpm_excluded(items[k].package_id@) && bins.contains("/usr/bin/"@ + items[k].package_id@),
        forall|k: int|
            0 <= k < items.len() && (#[trigger] items[k]).is_desktop_app ==> lookup_info(
                index,
                items[k].package_id@,
            ) is Some,
        forall|k: int|
            0 <= k < items.len() ==> exists|l: int|
                0 <= l < lines(output).len() && split_all(#[trigger] lines(output)[l], '\t').len() >= 2
                    && split_all(lines(output)[l], '\t')[0] == (#[trigger] items[k]).package_id@ && split_all(lines(output)[l], '\t')[1] == items[k].version@,
        forall|l: int|
            0 <= l < lines(output).len() && split_all(#[trigger] lines(output)[l], '\t').len() >= 2 && (lookup_info(
                index,
                split_all(lines(output)[l], '\t')[0],
            ) is Some || !rpm_excluded(split_all(lines(output)[l], '\t')[0]) && bins.contains("/usr/bin/"@ + split_all(lines(output)[l], '\t')[0])) ==> exists|k: int|
                0 <= k < items.len() && items[k].package_id@ == split_all(lines(output)[l], '\t')[0]
                    && items[k].version@ == split_all(lines(output)[l], '\t')[1],
{
    let ls = lines(output);
    let sel = rpm_selection(ls, index, bins);
    lemma_rpm_selection_facts(ls, index, bins);
    assert forall|k: int| 0 <= k < items.len() implies #[trigger] items[k].package_id@ == sel[k].0
        && items[k].version@ == sel[k].1 && items[k].is_desktop_app == (sel[k].2 is Some) by {
        assert(package_item_is(items[k], PackageSource::Rpm, sel[k].0, sel[k].1, sel[k].2));
    }
    assert forall|l: int|
        0 <= l < ls.len() && split_all(#[trigger] ls[l], '\t').len() >= 2 && (lookup_info(index, split_all(ls[l], '\t')[0]) is Some
            || !rpm_excluded(split_all(ls[l], '\t')[0]) && bins.contains("/usr/bin/"@ + split_all(ls[l], '\t')[0])) implies exists|k: int|
        0 <= k < items.len() && items[k].package_id@ == split_all(ls[l], '\t')[0] && items[k].version@ == split_all(ls[l], '\t')[1] by {
        let k = choose|k: int| 0 <= k < sel.len() && sel[k].0 == split_all(ls[l], '\t')[0] && sel[k].1 == split_all(ls[l], '\t')[1];
        assert(items[k].package_id@ == sel[k].0);
    }
}

impl RpmProvider {
    /// A provider that removes packages with `dnf`.
    pub fn new() -> (r: Self)
        ensures
            !r.dnf && !r.zypper && !r.microdnf,
    {
        RpmProvider { dnf: false, zypper: false, microdnf: false }
    }

    /// `rpm_excluded` computed.
    pub fn is_excluded(pkg: &str) -> (r: bool)
        ensures
            r == rpm_excluded(pkg@),
    {
        let l = lower_vec(&vec_of(pkg));
        let ps = vec!["lib", "kernel-", "fonts-"];
        assert(Seq::new(ps@.len(), |i: int| ps@[i]@) =~= rpm_excluded_prefixes());
        let ss = vec!["-theme", "-filesystem"];
        assert(Seq::new(ss@.len(), |i: int| ss@[i]@) =~= rpm_excluded_suffixes());
        has_any_prefix(&l, &ps) || has_any_suffix(&l, &ss)
    }

    /// The front end that removes packages: the first available of `dnf`,
    /// `zypper` and `microdnf`, else `dnf`.
    pub fn frontend(&self) -> (r: &'static str)
        ensures
            r@ == rpm_frontend(*self),
    {
        if self.dnf {
            "dnf"
        } else if self.zypper {
            "zypper"
        } else if self.microdnf {
            "microdnf"
        } else {
            "dnf"
        }
    }

    /// The applications of the `rpm -qa` output: see `rpm_selection` and
    /// `package_item_is`; `bins` lists the `/usr/bin` programs that exist.
    pub fn parse_installed_packages(
        output: &str,
        index: &KeyedList<DesktopEntryInfo>,
        bins: &Vec<String>,
    ) -> (r: Vec<ApplicationItem>)
        ensures
            items_of(
                r@,
                PackageSource::Rpm,
                rpm_selection(lines(output@), index_view(index@), str_views(bins@)),
            ),
    {
        let ls = lines_vec(&vec_of(output));
        let ghost sel = rpm_selection(views(ls@), index_view(index@), str_views(bins@));
        let mut apps: Vec<ApplicationItem> = Vec::new();
        let mut i: usize = 0;
        while i < ls.len()
            invariant
                i <= ls.len(),
                items_of(
                    apps@,
                    PackageSource::Rpm,
                    rpm_selection(views(ls@).take(i as int), index_view(index@), str_views(bins@)),
                ),
            decreases ls.len() - i,
        {
            let ghost prev = rpm_selection(views(ls@).take(i as int), index_view(index@), str_views(bins@));
            assert(views(ls@).take(i + 1).drop_last() =~= views(ls@).take(i as int));
            assert(views(ls@).take(i + 1).last() == ls@[i as int]@);
            let ws = split_all_vec(&ls[i], '\t');
            if ws.len() >= 2 {
                assert(views(ws@)[0] == ws@[0]@ && views(ws@)[1] == ws@[1]@);
                let pkg = string_from_chars(&ws[0]);
                let version = string_from_chars(&ws[1]);
                let info = lookup(index, pkg.as_str());
                let keep = match info {
                    Some(_) => true,
                    None => {
                        let mut bin = vec_of("/usr/bin/");
                        append_str(&mut bin, pkg.as_str());
                        !Self::is_excluded(pkg.as_str()) && contains_str(bins, &bin)
                    },
                };
                if keep {
                    let item = package_item(PackageSource::Rpm, pkg.as_str(), version.as_str(), info);
                    apps.push(item);
                    proof {
                        let next = rpm_selection(views(ls@).take(i + 1), index_view(index@), str_views(bins@));
                        assert(next == prev.push((pkg@, version@, lookup_info(index_view(index@), pkg@))));
                        assert forall|k: int| 0 <= k < apps@.len() implies package_item_is(
                            #[trigger] apps@[k],
                            PackageSource::Rpm,
                            next[k].0,
                            next[k].1,
                            next[k].2,
                        ) by {
                        }
                    }
                }
            }
            i += 1;
        }
        assert(views(ls@).take(i as int) =~= views(ls@));
        apps
    }
}

impl PackageManagerProvider for RpmProvider {
    fn name(&self) -> (r: &'static str)
        ensures
            r@ == "RPM / DNF"@,
    {
        "RPM / DNF"
    }

    fn source(&self) -> (r: PackageSource)
        ensures
            r == PackageSource::Rpm,
    {
        PackageSource::Rpm
    }

    fn uninstall_command(&self, package_id: &str) -> (r: (String, Vec<String>))
        ensures
            r.0@ == (if self.dnf {
                "dnf"@
            } else if self.zypper {
                "zypper"@
            } else if self.microdnf {
                "microdnf"@
            } else {
                "dnf"@
            }),
            str_views(r.1@) == seq!["remove"@, "-y"@, package_id@],
    {
        (self.frontend().to_owned(), vec!["remove".to_owned(), "-y".to_owned(), package_id.to_owned()])
    }

    fn details_command(&self, package_id: &str) -> (r: (String, Vec<String>))
        ensures
            r.0@ == "rpm"@,
            str_views(r.1@) == seq!["-qi"@, package_id@],
    {
        ("rpm".to_owned(), vec!["-qi".to_owned(), package_id.to_owned()])
    }
}

} // verus!
