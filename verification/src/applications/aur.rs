//! Packages installed from the AUR (foreign pacman packages).

use vstd::prelude::*;
use crate::applications::desktop_entries::{DesktopEntryInfo, InfoView, index_view, info_view};
use crate::applications::models::{ApplicationItem, PackageSource};
use crate::applications::traits::{
    PackageManagerProvider, arch_excluded, contains_str, is_arch_excluded, lookup, lookup_info,
    package_item, package_item_is, str_views,
};
use crate::keyed::KeyedList;
use crate::split::{append_str, lines, lines_vec, views, words, words_vec};
use crate::text::{lower_vec, lowercase, string_from_chars, vec_eq, vec_of};

verus! {

/// The AUR, through pacman.
pub struct AurProvider;

/// `s` without every trailing copy of `p` (`str::trim_end_matches`).
pub open spec fn strip_all_suffix(s: Seq<char>, p: Seq<char>) -> Seq<char>
    decreases s.len(),
{
    if p.len() > 0 && crate::text::ends_with(s, p) {
        strip_all_suffix(s.take(s.len() - p.len()), p)
    } else {
        s
    }
}

/// The packages of `pacman -Qm` lines that are listed, each with its
/// version and desktop entry: lines need a name and a version; a package
/// without a desktop entry is listed only when it is not excluded and has a
/// program `/usr/bin/<name>` or `/usr/bin/<name without -bin>` (`bins`
/// lists the programs that exist).
pub open spec fn aur_selection(
    ls: Seq<Seq<char>>,
    index: Map<Seq<char>, InfoView>,
    bins: Seq<Seq<char>>,
) -> Seq<(Seq<char>, Seq<char>, Option<InfoView>)>
    decreases ls.len(),
{
    if ls.len() == 0 {
        seq![]
    } else {
        let rest = aur_selection(ls.drop_last(), index, bins);
        let ws = words(ls.last());
        if ws.len() < 2 {
            rest
        } else {
            let pkg = ws[0];
            let info = lookup_info(index, pkg);
            if info is Some || (!arch_excluded(pkg) && (bins.contains("/usr/bin/"@ + pkg)
                || bins.contains("/usr/bin/"@ + strip_all_suffix(pkg, "-bin"@)))) {
                rest.push((pkg, ws[1], info))
            } else {
                rest
            }
        }
    }
}

/// The items are those of the selection, in order.
pub open spec fn items_of(items: Seq<ApplicationItem>, source: PackageSource, sel: Seq<(Seq<char>, Seq<char>, Option<InfoView>)>) -> bool {
    &&& items.len() == sel.len()
    &&& forall|i: int|
        0 <= i < items.len() ==> package_item_is(
            #[trigger] items[i],
            source,
            sel[i].0,
            sel[i].1,
            sel[i].2,
        )
}

/// Each entry of the selection is the package and version of some line,
/// with the desktop entry found for it, and one without a desktop entry
/// meets the condition for being listed without one; each line with a
/// package and a version that has a desktop entry or meets that condition
/// gives an entry.
proof fn lemma_aur_selection_facts(
    ls: Seq<Seq<char>>,
    index: Map<Seq<char>, InfoView>,
    bins: Seq<Seq<char>>,
)
    ensures
        ({
            let sel = aur_selection(ls, index, bins);
            forall|k: int|
                0 <= k < sel.len() ==> {
                    &&& (#[trigger] sel[k]).2 == lookup_info(index, sel[k].0)
                    &&& sel[k].2 is None ==> !arch_excluded(sel[k].0) && (bins.contains("/usr/bin/"@ + sel[k].0) || bins.contains("/usr/bin/"@ + strip_all_suffix(sel[k].0, "-bin"@)))
                    &&& exists|l: int|
                        0 <= l < ls.len() && words(#[trigger] ls[l]).len() >= 2 && words(ls[l])[0]
                            == sel[k].0 && words(ls[l])[1] == sel[k].1
                }
        }),
        ({
            let sel = aur_selection(ls, index, bins);
            forall|l: int|
                0 <= l < ls.len() && words(#[trigger] ls[l]).len() >= 2 && (lookup_info(index, words(ls[l])[0]) is Some
                    || !arch_excluded(words(ls[l])[0]) && (bins.contains("/usr/bin/"@ + words(ls[l])[0]) || bins.contains("/usr/bin/"@ + strip_all_suffix(words(ls[l])[0], "-bin"@)))) ==> exists|k: int|
                    0 <= k < sel.len() && sel[k].0 == words(ls[l])[0] && sel[k].1 == words(ls[l])[1]
        }),
    decreases ls.len(),
{
    if ls.len() > 0 {
        let init = ls.drop_last();
        lemma_aur_selection_facts(init, index, bins);
        let sel0 = aur_selection(init, index, bins);
        let sel = aur_selection(ls, index, bins);
        assert forall|k: int| 0 <= k < sel.len() implies {
            &&& (#[trigger] sel[k]).2 == lookup_info(index, sel[k].0)
            &&& sel[k].2 is None ==> !arch_excluded(sel[k].0) && (bins.contains("/usr/bin/"@ + sel[k].0) || bins.contains("/usr/bin/"@ + strip_all_suffix(sel[k].0, "-bin"@)))
            &&& exists|l: int|
                0 <= l < ls.len() && words(#[trigger] ls[l]).len() >= 2 && words(ls[l])[0] == sel[k].0
                    && words(ls[l])[1] == sel[k].1
        } by {
            if k < sel0.len() {
                assert(sel[k] == sel0[k]);
                let l = choose|l: int|
                    0 <= l < init.len() && words(#[trigger] init[l]).len() >= 2 && words(init[l])[0]
                        == sel0[k].0 && words(init[l])[1] == sel0[k].1;
                assert(ls[l] == init[l]);
            } else {
                assert(ls[ls.len() - 1] == ls.last());
            }
        }
        assert forall|l: int|
            0 <= l < ls.len() && words(#[trigger] ls[l]).len() >= 2 && (lookup_info(index, words(ls[l])[0]) is Some
                || !arch_excluded(words(ls[l])[0]) && (bins.contains("/usr/bin/"@ + words(ls[l])[0]) || bins.contains("/usr/bin/"@ + strip_all_suffix(words(ls[l])[0], "-bin"@)))) implies exists|k: int|
            0 <= k < sel.len() && sel[k].0 == words(ls[l])[0] && sel[k].1 == words(ls[l])[1] by {
            if l < init.len() {
                assert(init[l] == ls[l]);
                let k = choose|k: int|
                    0 <= k < sel0.len() && sel0[k].0 == words(init[l])[0] && sel0[k].1 == words(init[l])[1];
                assert(sel[k] == sel0[k]);
            } else {
                assert(ls[l] == ls.last());
                assert(sel[sel0.len() as int].0 == words(ls[l])[0]);
            }
        }
    }
}

/// What the AUR listing lists is made of applications: an item without a desktop
/// entry is a package that is not excluded, with its program `/usr/bin/<name>` (or that name without `-bin`) among `bins`; an item with one is a package for which
/// the index has a desktop entry. Each item is the package and version of
/// a line of the output, and every line with a package and a version that
/// has a desktop entry or meets that condition gives an item.
pub proof fn lemma_aur_lists_applications(
    output: Seq<char>,
    index: Map<Seq<char>, InfoView>,
    bins: Seq<Seq<char>>,
    items: Seq<ApplicationItem>,
)
    requires
        items_of(items, PackageSource::Aur, aur_selection(lines(output), index, bins)),
    ensures
        forall|k: int|
            0 <= k < items.len() && !(#[trigger] items[k]).is_desktop_app ==> !arch_excluded(items[k].package_id@) && (bins.contains("/usr/bin/"@ + items[k].package_id@) || bins.contains("/usr/bin/"@ + strip_all_suffix(items[k].package_id@, "-bin"@))),
        forall|k: int|
            0 <= k < items.len() && (#[trigger] items[k]).is_desktop_app ==> lookup_info(
                index,
                items[k].package_id@,
            ) is Some,
        forall|k: int|
            0 <= k < items.len() ==> exists|l: int|
                0 <= l < lines(output).len() && words(#[trigger] lines(output)[l]).len() >= 2
                    && words(lines(output)[l])[0] == (#[trigger] items[k]).package_id@ && words(lines(output)[l])[1] == items[k].version@,
        forall|l: int|
            0 <= l < lines(output).len() && words(#[trigger] lines(output)[l]).len() >= 2 && (lookup_info(
                index,
                words(lines(output)[l])[0],
            ) is Some || !arch_excluded(words(lines(output)[l])[0]) && (bins.contains("/usr/bin/"@ + words(lines(output)[l])[0]) || bins.contains("/usr/bin/"@ + strip_all_suffix(words(lines(output)[l])[0], "-bin"@)))) ==> exists|k: int|
                0 <= k < items.len() && items[k].package_id@ == words(lines(output)[l])[0]
                    && items[k].version@ == words(lines(output)[l])[1],
{
    let ls = lines(output);
    let sel = aur_selection(ls, index, bins);
    lemma_aur_selection_facts(ls, index, bins);
    assert forall|k: int| 0 <= k < items.len() implies #[trigger] items[k].package_id@ == sel[k].0
        && items[k].version@ == sel[k].1 && items[k].is_desktop_app == (sel[k].2 is Some) by {
        assert(package_item_is(items[k], PackageSource::Aur, sel[k].0, sel[k].1, sel[k].2));
    }
    assert forall|l: int|
        0 <= l < ls.len() && words(#[trigger] ls[l]).len() >= 2 && (lookup_info(index, words(ls[l])[0]) is Some
            || !arch_excluded(words(ls[l])[0]) && (bins.contains("/usr/bin/"@ + words(ls[l])[0]) || bins.contains("/usr/bin/"@ + strip_all_suffix(words(ls[l])[0], "-bin"@)))) implies exists|k: int|
        0 <= k < items.len() && items[k].package_id@ == words(ls[l])[0] && items[k].version@ == words(ls[l])[1] by {
        let k = choose|k: int| 0 <= k < sel.len() && sel[k].0 == words(ls[l])[0] && sel[k].1 == words(ls[l])[1];
        assert(items[k].package_id@ == sel[k].0);
    }
}

impl AurProvider {
    pub fn new() -> (r: Self) {
        AurProvider
    }

    /// The applications of the `pacman -Qm` output: see `aur_selection` and
    /// `package_item_is`; `bins` lists the `/usr/bin` programs that exist.
    pub fn parse_aur_packages(
        output: &str,
        index: &KeyedList<DesktopEntryInfo>,
        bins: &Vec<String>,
    ) -> (r: Vec<ApplicationItem>)
        ensures
            items_of(
                r@,
                PackageSource::Aur,
                aur_selection(lines(output@), index_view(index@), str_views(bins@)),
            ),
    {
        let ls = lines_vec(&vec_of(output));
        let ghost sel = aur_selection(views(ls@), index_view(index@), str_views(bins@));
        let mut apps: Vec<ApplicationItem> = Vec::new();
        let mut i: usize = 0;
        while i < ls.len()
            invariant
                i <= ls.len(),
                items_of(
                    apps@,
                    PackageSource::Aur,
                    aur_selection(views(ls@).take(i as int), index_view(index@), str_views(bins@)),
                ),
            decreases ls.len() - i,
        {
            let ghost prev = aur_selection(views(ls@).take(i as int), index_view(index@), str_views(bins@));
            assert(views(ls@).take(i + 1).drop_last() =~= views(ls@).take(i as int));
            assert(views(ls@).take(i + 1).last() == ls@[i as int]@);
            let ws = words_vec(&ls[i]);
            if ws.len() >= 2 {
                assert(views(ws@)[0] == ws@[0]@ && views(ws@)[1] == ws@[1]@);
                let pkg = string_from_chars(&ws[0]);
                let version = string_from_chars(&ws[1]);
                let info = lookup(index, pkg.as_str());
                let keep = match info {
                    Some(_) => true,
                    None => {
                        let mut bin = vec_of("/usr/bin/");
                        append_str(&mut bin, pkg.as_str());
                        let mut bin2 = vec_of("/usr/bin/");
                        crate::split::push_all(&mut bin2, &strip_all_suffix_vec(&ws[0], &vec_of("-bin")));
                        !is_arch_excluded(pkg.as_str()) && (contains_str(bins, &bin) || contains_str(
                            bins,
                            &bin2,
                        ))
                    },
                };
                if keep {
                    let item = package_item(PackageSource::Aur, pkg.as_str(), version.as_str(), info);
                    apps.push(item);
                    proof {
                        let next = aur_selection(views(ls@).take(i + 1), index_view(index@), str_views(bins@));
                        assert(next == prev.push((pkg@, version@, lookup_info(index_view(index@), pkg@))));
                        assert forall|k: int| 0 <= k < apps@.len() implies package_item_is(
                            #[trigger] apps@[k],
                            PackageSource::Aur,
                            next[k].0,
                            next[k].1,
                            next[k].2,
                        ) by {
                        }
                    }
                }
            }
            i += 1;
        }
        assert(views(ls@).take(i as int) =~= views(ls@));
        apps
    }
}

/// `strip_all_suffix` computed.
fn strip_all_suffix_vec(s: &Vec<char>, p: &Vec<char>) -> (r: Vec<char>)
    ensures
        r@ == strip_all_suffix(s@, p@),
{
    if p.len() == 0 {
        return s.clone();
    }
    let mut b: usize = s.len();
    assert(s@.take(s@.len() as int) =~= s@);
    loop
        invariant
            b <= s.len(),
            p@.len() > 0,
            strip_all_suffix(s@, p@) == strip_all_suffix(s@.take(b as int), p@),
        decreases b,
    {
        let cur = crate::text::slice_of(s, 0, b);
        assert(cur@ =~= s@.take(b as int));
        if crate::text::vec_ends_with(&cur, p) {
            assert(cur@.take(cur@.len() - p@.len()) =~= s@.take(b - p@.len()));
            b = b - p.len();
        } else {
            return cur;
        }
    }
}

impl PackageManagerProvider for AurProvider {
    fn name(&self) -> (r: &'static str)
        ensures
            r@ == "AUR"@,
    {
        "AUR"
    }

    fn source(&self) -> (r: PackageSource)
        ensures
            r == PackageSource::Aur,
    {
        PackageSource::Aur
    }

    fn uninstall_command(&self, package_id: &str) -> (r: (String, Vec<String>))
        ensures
            r.0@ == "pacman"@,
            str_views(r.1@) == seq!["-Rns"@, "--noconfirm"@, package_id@],
    {
        ("pacman".to_owned(), vec!["-Rns".to_owned(), "--noconfirm".to_owned(), package_id.to_owned()])
    }

    fn details_command(&self, package_id: &str) -> (r: (String, Vec<String>))
        ensures
            r.0@ == "pacman"@,
            str_views(r.1@) == seq!["-Qi"@, package_id@],
    {
        ("pacman".to_owned(), vec!["-Qi".to_owned(), package_id.to_owned()])
    }
}

} // verus!
