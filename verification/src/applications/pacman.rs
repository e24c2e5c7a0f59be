//! Packages installed with pacman.

use vstd::prelude::*;
use crate::applications::desktop_entries::{DesktopEntryInfo, InfoView, index_view, info_view};
use crate::applications::models::{ApplicationItem, PackageSource};
use crate::applications::traits::{
    PackageManagerProvider, arch_excluded, contains_str, is_arch_excluded, lookup, lookup_info,
    package_item, package_item_is, str_views,
};
use crate::keyed::KeyedList;
use crate::split::{append_str, lines, lines_vec, views, words, words_vec};
use crate::text::{lower_vec, lowercase, string_from_chars, vec_eq, vec_of};

verus! {

/// The pacman package manager.
pub struct PacmanProvider;

/// The lowercase package names the first words of `pacman -Qen` lines
/// give.
pub open spec fn explicit_names(ls: Seq<Seq<char>>) -> Seq<Seq<char>>
    decreases ls.len(),
{
    if ls.len() == 0 {
        seq![]
    } else {
        let rest = explicit_names(ls.drop_last());
        let ws = words(ls.last());
        if ws.len() > 0 {
            rest.push(lowercase(ws[0]))
        } else {
            rest
        }
    }
}

/// The packages of `pacman -Qn` lines that are listed, each with its
/// version and desktop entry: lines need a name and a version; a package
/// without a desktop entry is listed only when it was installed explicitly,
/// is not excluded and has a program `/usr/bin/<name>` (`bins` lists the
/// programs that exist).
pub open spec fn pacman_selection(
    ls: Seq<Seq<char>>,
    index: Map<Seq<char>, InfoView>,
    explicit: Seq<Seq<char>>,
    bins: Seq<Seq<char>>,
) -> Seq<(Seq<char>, Seq<char>, Option<InfoView>)>
    decreases ls.len(),
{
    if ls.len() == 0 {
        seq![]
    } else {
        let rest = pacman_selection(ls.drop_last(), index, explicit, bins);
        let ws = words(ls.last());
        if ws.len() < 2 {
            rest
        } else {
            let pkg = ws[0];
            let info = lookup_info(index, pkg);
            if info is Some || (explicit.contains(lowercase(pkg)) && !arch_excluded(pkg)
                && bins.contains("/usr/bin/"@ + pkg)) {
                rest.push((pkg, ws[1], info))
            } else {
                rest
            }
        }
    }
}

/// The items are those of the selection, in order.
pub open spec fn items_of(items: Seq<ApplicationItem>, source: PackageSource, sel: Seq<(Seq<char>, Seq<char>, Option<InfoView>)>) -> bool {
    &&& items.len() == sel.len()
    &&& forall|i: int|
        0 <= i < items.len() ==> package_item_is(
            #[trigger] items[i],
            source,
            sel[i].0,
            sel[i].1,
            sel[i].2,
        )
}


/// Each entry of the selection is the package and version of some line,
/// with the desktop entry found for it, and one without a desktop entry
/// meets the condition for being listed without one; each line with a
/// package and a version that has a desktop entry or meets that condition
/// gives an entry.
proof fn lemma_pacman_selection_facts(
    ls: Seq<Seq<char>>,
    index: Map<Seq<char>, InfoView>,
    explicit: Seq<Seq<char>>,
    bins: Seq<Seq<char>>,
)
    ensures
        ({
            let sel = pacman_selection(ls, index, explicit, bins);
            forall|k: int|
                0 <= k < sel.len() ==> {
                    &&& (#[trigger] sel[k]).2 == lookup_info(index, sel[k].0)
                    &&& sel[k].2 is None ==> explicit.contains(lowercase(sel[k].0)) && !arch_excluded(sel[k].0) && bins.contains("/usr/bin/"@ + sel[k].0)
                    &&& exists|l: int|
                        0 <= l < ls.len() && words(#[trigger] ls[l]).len() >= 2 && words(ls[l])[0]
                            == sel[k].0 && words(ls[l])[1] == sel[k].1
                }
        }),
        ({
            let sel = pacman_selection(ls, index, explicit, bins);
            forall|l: int|
                0 <= l < ls.len() && words(#[trigger] ls[l]).len() >= 2 && (lookup_info(index, words(ls[l])[0]) is Some
                    || explicit.contains(lowercase(words(ls[l])[0])) && !arch_excluded(words(ls[l])[0]) && bins.contains("/usr/bin/"@ + words(ls[l])[0])) ==> exists|k: int|
                    0 <= k < sel.len() && sel[k].0 == words(ls[l])[0] && sel[k].1 == words(ls[l])[1]
        }),
    decreases ls.len(),
{
    if ls.len() > 0 {
        let init = ls.drop_last();
        lemma_pacman_selection_facts(init, index, explicit, bins);
        let sel0 = pacman_selection(init, index, explicit, bins);
        let sel = pacman_selection(ls, index, explicit, bins);
        assert forall|k: int| 0 <= k < sel.len() implies {
            &&& (#[trigger] sel[k]).2 == lookup_info(index, sel[k].0)
            &&& sel[k].2 is None ==> explicit.contains(lowercase(sel[k].0)) && !arch_excluded(sel[k].0) && bins.contains("/usr/bin/"@ + sel[k].0)
            &&& exists|l: int|
                0 <= l < ls.len() && words(#[trigger] ls[l]).len() >= 2 && words(ls[l])[0] == sel[k].0
                    && words(ls[l])[1] == sel[k].1
        } by {
            if k < sel0.len() {
                assert(sel[k] == sel0[k]);
                let l = choose|l: int|
                    0 <= l < init.len() && words(#[trigger] init[l]).len() >= 2 && words(init[l])[0]
                        == sel0[k].0 && words(init[l])[1] == sel0[k].1;
                assert(ls[l] == init[l]);
            } else {
                assert(ls[ls.len() - 1] == ls.last());
            }
        }
        assert forall|l: int|
            0 <= l < ls.len() && words(#[trigger] ls[l]).len() >= 2 && (lookup_info(index, words(ls[l])[0]) is Some
                || explicit.contains(lowercase(words(ls[l])[0])) && !arch_excluded(words(ls[l])[0]) && bins.contains("/usr/bin/"@ + words(ls[l])[0])) implies exists|k: int|
            0 <= k < sel.len() && sel[k].0 == words(ls[l])[0] && sel[k].1 == words(ls[l])[1] by {
            if l < init.len() {
                assert(init[l] == ls[l]);
                let k = choose|k: int|
                    0 <= k < sel0.len() && sel0[k].0 == words(init[l])[0] && sel0[k].1 == words(init[l])[1];
                assert(sel[k] == sel0[k]);
            } else {
                assert(ls[l] == ls.last());
                assert(sel[sel0.len() as int].0 == words(ls[l])[0]);
            }
        }
    }
}

/// What pacman lists is made of applications: an item without a desktop
/// entry is a package installed explicitly (its lowercase name is among `explicit`), not excluded, with its program `/usr/bin/<name>` among `bins`; an item with one is a package for which
/// the index has a desktop entry. Each item is the package and version of
/// a line of the output, and every line with a package and a version that
/// has a desktop entry or meets that condition gives an item.
pub proof fn lemma_pacman_lists_applications(
    output: Seq<char>,
    index: Map<Seq<char>, InfoView>,
    explicit: Seq<Seq<char>>,
    bins: Seq<Seq<char>>,
    items: Seq<ApplicationItem>,
)
    requires
        items_of(items, PackageSource::Pacman, pacman_selection(lines(output), index, explicit, bins)),
    ensures
        forall|k: int|
            0 <= k < items.len() && !(#[trigger] items[k]).is_desktop_app ==> explicit.contains(lowercase(items[k].package_id@)) && !arch_excluded(items[k].package_id@) && bins.contains("/usr/bin/"@ + items[k].package_id@),
        forall|k: int|
            0 <= k < items.len() && (#[trigger] items[k]).is_desktop_app ==> lookup_info(
                index,
                items[k].package_id@,
            ) is Some,
        forall|k: int|
            0 <= k < items.len() ==> exists|l: int|
                0 <= l < lines(output).len() && words(#[trigger] lines(output)[l]).len() >= 2
                    && words(lines(output)[l])[0] == (#[trigger] items[k]).package_id@ && words(lines(output)[l])[1] == items[k].version@,
        forall|l: int|
            0 <= l < lines(output).len() && words(#[trigger] lines(output)[l]).len() >= 2 && (lookup_info(
                index,
                words(lines(output)[l])[0],
            ) is Some || explicit.contains(lowercase(words(lines(output)[l])[0])) && !arch_excluded(words(lines(output)[l])[0]) && bins.contains("/usr/bin/"@ + words(lines(output)[l])[0])) ==> exists|k: int|
                0 <= k < items.len() && items[k].package_id@ == words(lines(output)[l])[0]
                    && items[k].version@ == words(lines(output)[l])[1],
{
    let ls = lines(output);
    let sel = pacman_selection(ls, index, explicit, bins);
    lemma_pacman_selection_facts(ls, index, explicit, bins);
    assert forall|k: int| 0 <= k < items.len() implies #[trigger] items[k].package_id@ == sel[k].0
        && items[k].version@ == sel[k].1 && items[k].is_desktop_app == (sel[k].2 is Some) by {
        assert(package_item_is(items[k], PackageSource::Pacman, sel[k].0, sel[k].1, sel[k].2));
    }
    assert forall|l: int|
        0 <= l < ls.len() && words(#[trigger] ls[l]).len() >= 2 && (lookup_info(index, words(ls[l])[0]) is Some
            || explicit.contains(lowercase(words(ls[l])[0])) && !arch_excluded(words(ls[l])[0]) && bins.contains("/usr/bin/"@ + words(ls[l])[0])) implies exists|k: int|
        0 <= k < items.len() && items[k].package_id@ == words(ls[l])[0] && items[k].version@ == words(ls[l])[1] by {
        let k = choose|k: int| 0 <= k < sel.len() && sel[k].0 == words(ls[l])[0] && sel[k].1 == words(ls[l])[1];
        assert(items[k].package_id@ == sel[k].0);
    }
}

impl PacmanProvider {
    pub fn new() -> (r: Self) {
        PacmanProvider
    }

    /// The lowercase names of explicitly installed packages, from the
    /// output of `pacman -Qen`.
    pub fn get_explicit_packages(output: &str) -> (r: Vec<String>)
        ensures
            str_views(r@) == explicit_names(lines(output@)),
    {
        let ls = lines_vec(&vec_of(output));
        let mut out: Vec<String> = Vec::new();
        let mut i: usize = 0;
        while i < ls.len()
            invariant
                i <= ls.len(),
                str_views(out@) == explicit_names(views(ls@).take(i as int)),
            decreases ls.len() - i,
        {
            assert(views(ls@).take(i + 1).drop_last() =~= views(ls@).take(i as int));
            assert(views(ls@).take(i + 1).last() == ls@[i as int]@);
            let ws = words_vec(&ls[i]);
            if ws.len() > 0 {
                let ghost before = str_views(out@);
                assert(views(ws@)[0] == ws@[0]@);
                let name = string_from_chars(&lower_vec(&ws[0]));
                out.push(name);
                assert(str_views(out@) =~= before.push(out@.last()@));
            }
            i += 1;
        }
        assert(views(ls@).take(i as int) =~= views(ls@));
        out
    }

    /// The applications of the `pacman -Qn` output: see `pacman_selection`
    /// and `package_item_is`. `explicit` is `get_explicit_packages` of the
    /// `pacman -Qen` output and `bins` the `/usr/bin` programs that exist.
    pub fn parse_installed_packages(
        output: &str,
        index: &KeyedList<DesktopEntryInfo>,
        explicit: &Vec<String>,
        bins: &Vec<String>,
    ) -> (r: Vec<ApplicationItem>)
        ensures
            items_of(
                r@,
                PackageSource::Pacman,
                pacman_selection(lines(output@), index_view(index@), str_views(explicit@), str_views(bins@)),
            ),
    {
        let ls = lines_vec(&vec_of(output));
        let ghost sel = pacman_selection(views(ls@), index_view(index@), str_views(explicit@), str_views(bins@));
        let mut apps: Vec<ApplicationItem> = Vec::new();
        let mut i: usize = 0;
        while i < ls.len()
            invariant
                i <= ls.len(),
                items_of(
                    apps@,
                    PackageSource::Pacman,
                    pacman_selection(views(ls@).take(i as int), index_view(index@), str_views(explicit@), str_views(bins@)),
                ),
            decreases ls.len() - i,
        {
            let ghost prev = pacman_selection(views(ls@).take(i as int), index_view(index@), str_views(explicit@), str_views(bins@));
            assert(views(ls@).take(i + 1).drop_last() =~= views(ls@).take(i as int));
            assert(views(ls@).take(i + 1).last() == ls@[i as int]@);
            let ws = words_vec(&ls[i]);
            if ws.len() >= 2 {
                assert(views(ws@)[0] == ws@[0]@ && views(ws@)[1] == ws@[1]@);
                let pkg = string_from_chars(&ws[0]);
                let version = string_from_chars(&ws[1]);
                let info = lookup(index, pkg.as_str());
                let keep = match info {
                    Some(_) => true,
                    None => {
                        let lower = lower_vec(&ws[0]);
                        let mut bin = vec_of("/usr/bin/");
                        append_str(&mut bin, pkg.as_str());
                        contains_str(explicit, &lower) && !is_arch_excluded(pkg.as_str())
                            && contains_str(bins, &bin)
                    },
                };
                if keep {
                    let item = package_item(PackageSource::Pacman, pkg.as_str(), version.as_str(), info);
                    apps.push(item);
                    proof {
                        let next = pacman_selection(views(ls@).take(i + 1), index_view(index@), str_views(explicit@), str_views(bins@));
                        assert(next == prev.push((pkg@, version@, lookup_info(index_view(index@), pkg@))));
                        assert forall|k: int| 0 <= k < apps@.len() implies package_item_is(
                            #[trigger] apps@[k],
                            PackageSource::Pacman,
                            next[k].0,
                            next[k].1,
                            next[k].2,
                        ) by {
                        }
                    }
                }
            }
            i += 1;
        }
        assert(views(ls@).take(i as int) =~= views(ls@));
        apps
    }
}

impl PackageManagerProvider for PacmanProvider {
    fn name(&self) -> (r: &'static str)
        ensures
            r@ == "Pacman"@,
    {
        "Pacman"
    }

    fn source(&self) -> (r: PackageSource)
        ensures
            r == PackageSource::Pacman,
    {
        PackageSource::Pacman
    }

    fn uninstall_command(&self, package_id: &str) -> (r: (String, Vec<String>))
        ensures
            r.0@ == "pacman"@,
            str_views(r.1@) == seq!["-Rns"@, "--noconfirm"@, package_id@],
    {
        ("pacman".to_owned(), vec!["-Rns".to_owned(), "--noconfirm".to_owned(), package_id.to_owned()])
    }

    fn details_command(&self, package_id: &str) -> (r: (String, Vec<String>))
        ensures
            r.0@ == "pacman"@,
            str_views(r.1@) == seq!["-Qi"@, package_id@],
    {
        ("pacman".to_owned(), vec!["-Qi".to_owned(), package_id.to_owned()])
    }
}

} // verus!
