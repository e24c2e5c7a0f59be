//! Packages installed with snap.

use vstd::prelude::*;
use crate::applications::desktop_entries::{DesktopEntryInfo, InfoView, index_view, info_view};
use crate::applications::models::{ApplicationItem, PackageSource};
use crate::applications::traits::{PackageManagerProvider, contains_str, lookup, lookup_info, package_item, package_item_is, str_views};
use crate::keyed::KeyedList;
use crate::split::{append_str, lines, lines_vec, views, words, words_vec};
use crate::text::{starts_with, string_from_chars, vec_eq, vec_of, vec_starts_with};

verus! {

/// The snap package manager.
pub struct SnapProvider;

/// A base or runtime snap rather than an application.
pub open spec fn snap_base(name: Seq<char>) -> bool {
    name == "core"@ || starts_with(name, "core"@) || starts_with(name, "bare"@) || starts_with(
        name,
        "gnome-"@,
    ) || starts_with(name, "gtk-common-"@)
}

/// The snaps of `snap list` lines (its header already dropped) that are
/// listed, each with its version and desktop entry: lines need a name and a
/// version, and base snaps are left out.
pub open spec fn snap_selection(ls: Seq<Seq<char>>, index: Map<Seq<char>, InfoView>) -> Seq<(Seq<char>, Seq<char>, Option<InfoView>)>
    decreases ls.len(),
{
    if ls.len() == 0 {
        seq![]
    } else {
        let rest = snap_selection(ls.drop_last(), index);
        let ws = words(ls.last());
        if ws.len() < 2 || snap_base(ws[0]) {
            rest
        } else {
            rest.push((ws[0], ws[1], lookup_info(index, ws[0])))
        }
    }
}

/// The lines after the first.
pub open spec fn after_header(ls: Seq<Seq<char>>) -> Seq<Seq<char>> {
    if ls.len() > 0 {
        ls.skip(1)
    } else {
        seq![]
    }
}

/// The item listed for a snap: as for other packages when it has a desktop
/// entry; otherwise run as `/snap/bin/<name>` and counted as a desktop
/// application when that program exists (`bins` lists those that do), else
/// run by its name.
pub open spec fn snap_item_is(item: ApplicationItem, name: Seq<char>, version: Seq<char>, info: Option<InfoView>, bins: Seq<Seq<char>>) -> bool {
    match info {
        Some(_) => package_item_is(item, PackageSource::Snap, name, version, info),
        None => {
            let bin = "/snap/bin/"@ + name;
            let is_bin = bins.contains(bin);
            &&& item.id@ == "snap:"@ + name
            &&& item.package_id@ == name
            &&& item.name@ == name
            &&& item.version@ == version
            &&& item.description@ == Seq::<char>::empty()
            &&& item.source == PackageSource::Snap
            &&& item.icon@ == Seq::<char>::empty()
            &&& item.icon_path is None
            &&& item.exec_cmd is Some
            &&& item.exec_cmd->0@ == (if is_bin {
                bin
            } else {
                name
            })
            &&& item.installed_size_bytes is None
            &&& item.size_formatted@ == Seq::<char>::empty()
            &&& item.desktop_file_path is None
            &&& item.is_desktop_app == is_bin
            &&& !item.selected
        },
    }
}

proof fn lemma_snap_selection_facts(ls: Seq<Seq<char>>, index: Map<Seq<char>, InfoView>)
    ensures
        ({
            let sel = snap_selection(ls, index);
            forall|k: int|
                0 <= k < sel.len() ==> {
                    &&& (#[trigger] sel[k]).2 == lookup_info(index, sel[k].0)
                    &&& !snap_base(sel[k].0)
                    &&& exists|l: int|
                        0 <= l < ls.len() && words(#[trigger] ls[l]).len() >= 2 && words(ls[l])[0]
                            == sel[k].0 && words(ls[l])[1] == sel[k].1
                }
        }),
        ({
            let sel = snap_selection(ls, index);
            forall|l: int|
                0 <= l < ls.len() && words(#[trigger] ls[l]).len() >= 2 && !snap_base(words(ls[l])[0])
                    ==> exists|k: int|
                    0 <= k < sel.len() && sel[k].0 == words(ls[l])[0] && sel[k].1 == words(ls[l])[1]
        }),
    decreases ls.len(),
{
    if ls.len() > 0 {
        let init = ls.drop_last();
        lemma_snap_selection_facts(init, index);
        let sel0 = snap_selection(init, index);
        let sel = snap_selection(ls, index);
        assert forall|k: int| 0 <= k < sel.len() implies {
            &&& (#[trigger] sel[k]).2 == lookup_info(index, sel[k].0)
            &&& !snap_base(sel[k].0)
            &&& exists|l: int|
                0 <= l < ls.len() && words(#[trigger] ls[l]).len() >= 2 && words(ls[l])[0] == sel[k].0
                    && words(ls[l])[1] == sel[k].1
        } by {
            if k < sel0.len() {
                assert(sel[k] == sel0[k]);
                let l = choose|l: int|
                    0 <= l < init.len() && words(#[trigger] init[l]).len() >= 2 && words(init[l])[0]
                        == sel0[k].0 && words(init[l])[1] == sel0[k].1;
                assert(ls[l] == init[l]);
            } else {
                assert(ls[ls.len() - 1] == ls.last());
            }
        }
        assert forall|l: int|
            0 <= l < ls.len() && words(#[trigger] ls[l]).len() >= 2 && !snap_base(words(ls[l])[0])
                implies exists|k: int|
            0 <= k < sel.len() && sel[k].0 == words(ls[l])[0] && sel[k].1 == words(ls[l])[1] by {
            if l < init.len() {
                assert(init[l] == ls[l]);
                let k = choose|k: int|
                    0 <= k < sel0.len() && sel0[k].0 == words(init[l])[0] && sel0[k].1 == words(init[l])[1];
                assert(sel[k] == sel0[k]);
            } else {
                assert(ls[l] == ls.last());
                assert(sel[sel0.len() as int].0 == words(ls[l])[0]);
            }
        }
    }
}

/// What snap lists leaves out the base snaps: no item is a base or
/// runtime snap, each item is the snap and version of a line after the
/// header, and every such line with a name and a version that is not a
/// base snap gives an item.
pub proof fn lemma_snap_lists_applications(
    output: Seq<char>,
    index: Map<Seq<char>, InfoView>,
    bins: Seq<Seq<char>>,
    items: Seq<ApplicationItem>,
)
    requires
        ({
            let sel = snap_selection(after_header(lines(output)), index);
            &&& items.len() == sel.len()
            &&& forall|i: int|
                0 <= i < items.len() ==> snap_item_is(#[trigger] items[i], sel[i].0, sel[i].1, sel[i].2, bins)
        }),
    ensures
        forall|k: int| 0 <= k < items.len() ==> !snap_base((#[trigger] items[k]).package_id@),
        forall|k: int|
            0 <= k < items.len() ==> exists|l: int|
                1 <= l < lines(output).len() && words(#[trigger] lines(output)[l]).len() >= 2
                    && words(lines(output)[l])[0] == (#[trigger] items[k]).package_id@ && words(
                    lines(output)[l],
                )[1] == items[k].version@,
        forall|l: int|
            1 <= l < lines(output).len() && words(#[trigger] lines(output)[l]).len() >= 2 && !snap_base(
                words(lines(output)[l])[0],
            ) ==> exists|k: int|
                0 <= k < items.len() && items[k].package_id@ == words(lines(output)[l])[0]
                    && items[k].version@ == words(lines(output)[l])[1],
{
    let all = lines(output);
    let ls = after_header(all);
    let sel = snap_selection(ls, index);
    lemma_snap_selection_facts(ls, index);
    assert forall|k: int| 0 <= k < items.len() implies #[trigger] items[k].package_id@ == sel[k].0
        && items[k].version@ == sel[k].1 by {
        assert(snap_item_is(items[k], sel[k].0, sel[k].1, sel[k].2, bins));
    }
    assert forall|k: int| 0 <= k < items.len() implies exists|l: int|
        1 <= l < all.len() && words(#[trigger] all[l]).len() >= 2 && words(all[l])[0]
            == (#[trigger] items[k]).package_id@ && words(all[l])[1] == items[k].version@ by {
        let m = choose|m: int|
            0 <= m < ls.len() && words(#[trigger] ls[m]).len() >= 2 && words(ls[m])[0] == sel[k].0
                && words(ls[m])[1] == sel[k].1;
        assert(ls[m] == all[m + 1]);
    }
    assert forall|l: int|
        1 <= l < all.len() && words(#[trigger] all[l]).len() >= 2 && !snap_base(words(all[l])[0])
            implies exists|k: int|
        0 <= k < items.len() && items[k].package_id@ == words(all[l])[0] && items[k].version@
            == words(all[l])[1] by {
        assert(ls[l - 1] == all[l]);
        let k = choose|k: int|
            0 <= k < sel.len() && sel[k].0 == words(ls[l - 1])[0] && sel[k].1 == words(ls[l - 1])[1];
        assert(items[k].package_id@ == sel[k].0);
    }
}

impl SnapProvider {
    pub fn new() -> (r: Self) {
        SnapProvider
    }

    /// Whether the snap is a base snap.
    pub fn is_base(name: &Vec<char>) -> (r: bool)
        ensures
            r == snap_base(name@),
    {
        vec_eq(name, &vec_of("core")) || vec_starts_with(name, &vec_of("core")) || vec_starts_with(
            name,
            &vec_of("bare"),
        ) || vec_starts_with(name, &vec_of("gnome-")) || vec_starts_with(name, &vec_of("gtk-common-"))
    }

    /// The applications of the `snap list` output (its first line is a
    /// header): see `snap_selection` and `snap_item_is`.
    pub fn parse_installed_packages(output: &str, index: &KeyedList<DesktopEntryInfo>, bins: &Vec<String>) -> (r: Vec<ApplicationItem>)
        ensures
            ({
                let sel = snap_selection(after_header(lines(output@)), index_view(index@));
                &&& r@.len() == sel.len()
                &&& forall|i: int|
                    0 <= i < r@.len() ==> snap_item_is(
                        #[trigger] r@[i],
                        sel[i].0,
                        sel[i].1,
                        sel[i].2,
                        str_views(bins@),
                    )
            }),
    {
        let ls = lines_vec(&vec_of(output));
        let mut apps: Vec<ApplicationItem> = Vec::new();
        let mut i: usize = 1;
        if ls.len() == 0 {
            return apps;
        }
        while i < ls.len()
            invariant
                1 <= i <= ls.len(),
                ({
                    let sel = snap_selection(views(ls@).subrange(1, i as int), index_view(index@));
                    &&& apps@.len() == sel.len()
                    &&& forall|k: int|
                        0 <= k < apps@.len() ==> snap_item_is(
                            #[trigger] apps@[k],
                            sel[k].0,
                            sel[k].1,
                            sel[k].2,
                            str_views(bins@),
                        )
                }),
            decreases ls.len() - i,
        {
            let ghost prev = snap_selection(views(ls@).subrange(1, i as int), index_view(index@));
            assert(views(ls@).subrange(1, i + 1).drop_last() =~= views(ls@).subrange(1, i as int));
            assert(views(ls@).subrange(1, i + 1).last() == ls@[i as int]@);
            let ws = words_vec(&ls[i]);
            if ws.len() >= 2 && !Self::is_base(&ws[0]) {
                assert(views(ws@)[0] == ws@[0]@ && views(ws@)[1] == ws@[1]@);
                let name = string_from_chars(&ws[0]);
                let version = string_from_chars(&ws[1]);
                let info = lookup(index, name.as_str());
                let item = match info {
                    Some(_) => package_item(PackageSource::Snap, name.as_str(), version.as_str(), info),
                    None => {
                        let mut bin = vec_of("/snap/bin/");
                        append_str(&mut bin, name.as_str());
                        let is_bin = contains_str(bins, &bin);
                        let mut id = vec_of("snap:");
                        append_str(&mut id, name.as_str());
                        ApplicationItem {
                            id: string_from_chars(&id),
                            package_id: name.clone(),
                            name: name.clone(),
                            version: version.clone(),
                            description: String::new(),
                            source: PackageSource::Snap,
                            icon: String::new(),
                            icon_path: None,
                            exec_cmd: Some(if is_bin { string_from_chars(&bin) } else { name.clone() }),
                            installed_size_bytes: None,
                            size_formatted: String::new(),
                            desktop_file_path: None,
                            is_desktop_app: is_bin,
                            selected: false,
                        }
                    },
                };
                apps.push(item);
                proof {
                    let next = snap_selection(views(ls@).subrange(1, i + 1), index_view(index@));
                    assert(next == prev.push((name@, version@, lookup_info(index_view(index@), name@))));
                }
            }
            i += 1;
        }
        assert(views(ls@).subrange(1, i as int) =~= views(ls@).skip(1));
        apps
    }
}

impl PackageManagerProvider for SnapProvider {
    fn name(&self) -> (r: &'static str)
        ensures
            r@ == "Snap"@,
    {
        "Snap"
    }

    fn source(&self) -> (r: PackageSource)
        ensures
            r == PackageSource::Snap,
    {
        PackageSource::Snap
    }

    fn uninstall_command(&self, package_id: &str) -> (r: (String, Vec<String>))
        ensures
            r.0@ == "snap"@,
            str_views(r.1@) == seq!["remove"@, package_id@],
    {
        ("snap".to_owned(), vec!["remove".to_owned(), package_id.to_owned()])
    }

    fn details_command(&self, package_id: &str) -> (r: (String, Vec<String>))
        ensures
            r.0@ == "snap"@,
            str_views(r.1@) == seq!["info"@, package_id@],
    {
        ("snap".to_owned(), vec!["info".to_owned(), package_id.to_owned()])
    }
}

} // verus!
