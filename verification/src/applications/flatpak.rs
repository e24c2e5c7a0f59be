//! Applications installed with Flatpak.

use vstd::prelude::*;
use crate::applications::desktop_entries::{DesktopEntryInfo, InfoView, index_view, info_view};
use crate::applications::models::{ApplicationItem, PackageSource};
use crate::applications::traits::{PackageManagerProvider, split_all, split_all_vec, str_views};
use crate::keyed::KeyedList;
use crate::split::{append_str, lines, lines_vec, views};
use crate::text::{lower_vec, lowercase, string_from_chars, trim, trim_vec, vec_of};

verus! {

/// The Flatpak package manager.
pub struct FlatpakProvider;

/// The trimmed `k`-th field, or nothing when the row is shorter.
pub open spec fn field(ps: Seq<Seq<char>>, k: int) -> Seq<char> {
    if k < ps.len() {
        trim(ps[k])
    } else {
        seq![]
    }
}

/// The rows of the listing: lines split at tabs, those with at least two
/// fields.
pub open spec fn flatpak_rows(ls: Seq<Seq<char>>) -> Seq<Seq<Seq<char>>>
    decreases ls.len(),
{
    if ls.len() == 0 {
        seq![]
    } else {
        let rest = flatpak_rows(ls.drop_last());
        let ps = split_all(ls.last(), '\t');
        if ps.len() < 2 {
            rest
        } else {
            rest.push(ps)
        }
    }
}

/// The item listed for a row (name, application id, version, description,
/// size): its icon and desktop file come from the desktop entry indexed
/// under the lowercase id (the icon is the id otherwise); it runs with
/// `flatpak run <id>` and counts as a desktop application.
pub open spec fn flatpak_item_is(item: ApplicationItem, ps: Seq<Seq<char>>, index: Map<Seq<char>, InfoView>) -> bool {
    let app_id = field(ps, 1);
    let key = lowercase(app_id);
    &&& item.id@ == "flatpak:"@ + app_id
    &&& item.package_id@ == app_id
    &&& item.name@ == field(ps, 0)
    &&& item.version@ == field(ps, 2)
    &&& item.description@ == field(ps, 3)
    &&& item.source == PackageSource::Flatpak
    &&& item.icon@ == (if index.contains_key(key) {
        index[key].icon
    } else {
        app_id
    })
    &&& item.icon_path is None
    &&& item.exec_cmd is Some
    &&& item.exec_cmd->0@ == "flatpak run "@ + app_id
    &&& item.installed_size_bytes is None
    &&& item.size_formatted@ == field(ps, 4)
    &&& (if index.contains_key(key) {
        item.desktop_file_path is Some && item.desktop_file_path->0@ == index[key].file_path
    } else {
        item.desktop_file_path is None
    })
    &&& item.is_desktop_app
    &&& !item.selected
}

fn field_of(ps: &Vec<Vec<char>>, k: usize) -> (r: String)
    ensures
        r@ == field(views(ps@), k as int),
{
    if k < ps.len() {
        string_from_chars(&trim_vec(&ps[k]))
    } else {
        String::new()
    }
}

proof fn lemma_flatpak_rows_facts(ls: Seq<Seq<char>>)
    ensures
        ({
            let r = flatpak_rows(ls);
            forall|k: int|
                0 <= k < r.len() ==> (#[trigger] r[k]).len() >= 2 && exists|l: int|
                    0 <= l < ls.len() && split_all(#[trigger] ls[l], '\t').len() >= 2 && r[k]
                        == split_all(ls[l], '\t')
        }),
        ({
            let r = flatpak_rows(ls);
            forall|l: int|
                0 <= l < ls.len() && split_all(#[trigger] ls[l], '\t').len() >= 2 ==> exists|k: int|
                    0 <= k < r.len() && r[k] == split_all(ls[l], '\t')
        }),
    decreases ls.len(),
{
    if ls.len() > 0 {
        let init = ls.drop_last();
        lemma_flatpak_rows_facts(init);
        let r0 = flatpak_rows(init);
        let r = flatpak_rows(ls);
        assert forall|k: int| 0 <= k < r.len() implies (#[trigger] r[k]).len() >= 2 && exists|l: int|
            0 <= l < ls.len() && split_all(#[trigger] ls[l], '\t').len() >= 2 && r[k]
                == split_all(ls[l], '\t') by {
            if k < r0.len() {
                assert(r[k] == r0[k]);
                let l = choose|l: int|
                    0 <= l < init.len() && split_all(#[trigger] init[l], '\t').len() >= 2 && r0[k]
                        == split_all(init[l], '\t');
                assert(ls[l] == init[l]);
            } else {
                assert(ls[ls.len() - 1] == ls.last());
                assert(split_all(ls[ls.len() - 1], '\t').len() >= 2);
                assert(r[k] == split_all(ls[ls.len() - 1], '\t'));
            }
        }
        assert forall|l: int| 0 <= l < ls.len() && split_all(#[trigger] ls[l], '\t').len() >= 2 implies exists|k: int|
            0 <= k < r.len() && r[k] == split_all(ls[l], '\t') by {
            if l < init.len() {
                assert(init[l] == ls[l]);
                let k = choose|k: int| 0 <= k < r0.len() && r0[k] == split_all(init[l], '\t');
                assert(r[k] == r0[k]);
            } else {
                assert(ls[l] == ls.last());
                assert(r[r0.len() as int] == split_all(ls[l], '\t'));
            }
        }
    }
}

/// Every line of the Flatpak listing with at least two tab-separated
/// fields gives an application named by its trimmed first field, with its
/// trimmed second field as the application id, run with
/// `flatpak run <id>`; every item comes from such a line.
pub proof fn lemma_flatpak_lists_rows(output: Seq<char>, index: Map<Seq<char>, InfoView>, items: Seq<ApplicationItem>)
    requires
        ({
            let rows = flatpak_rows(lines(output));
            &&& items.len() == rows.len()
            &&& forall|i: int| 0 <= i < items.len() ==> flatpak_item_is(#[trigger] items[i], rows[i], index)
        }),
    ensures
        forall|l: int|
            0 <= l < lines(output).len() && split_all(#[trigger] lines(output)[l], '\t').len() >= 2
                ==> exists|k: int|
                0 <= k < items.len() && items[k].name@ == trim(split_all(lines(output)[l], '\t')[0])
                    && items[k].package_id@ == trim(split_all(lines(output)[l], '\t')[1])
                    && items[k].exec_cmd == Some(items[k].exec_cmd->0) && items[k].exec_cmd->0@
                    == "flatpak run "@ + trim(split_all(lines(output)[l], '\t')[1]),
        forall|k: int|
            0 <= k < items.len() ==> exists|l: int|
                0 <= l < lines(output).len() && split_all(#[trigger] lines(output)[l], '\t').len() >= 2
                    && (#[trigger] items[k]).name@ == trim(split_all(lines(output)[l], '\t')[0])
                    && items[k].package_id@ == trim(split_all(lines(output)[l], '\t')[1]),
{
    let ls = lines(output);
    let rows = flatpak_rows(ls);
    lemma_flatpak_rows_facts(ls);
    assert forall|l: int| 0 <= l < ls.len() && split_all(#[trigger] ls[l], '\t').len() >= 2 implies exists|k: int|
        0 <= k < items.len() && items[k].name@ == trim(split_all(ls[l], '\t')[0])
            && items[k].package_id@ == trim(split_all(ls[l], '\t')[1]) && items[k].exec_cmd == Some(
            items[k].exec_cmd->0,
        ) && items[k].exec_cmd->0@ == "flatpak run "@ + trim(split_all(ls[l], '\t')[1]) by {
        let k = choose|k: int| 0 <= k < rows.len() && rows[k] == split_all(ls[l], '\t');
        assert(flatpak_item_is(items[k], rows[k], index));
    }
    assert forall|k: int| 0 <= k < items.len() implies exists|l: int|
        0 <= l < ls.len() && split_all(#[trigger] ls[l], '\t').len() >= 2 && (#[trigger] items[k]).name@
            == trim(split_all(ls[l], '\t')[0]) && items[k].package_id@ == trim(split_all(ls[l], '\t')[1]) by {
        assert(flatpak_item_is(items[k], rows[k], index));
        let l = choose|l: int|
            0 <= l < ls.len() && split_all(#[trigger] ls[l], '\t').len() >= 2 && rows[k] == split_all(ls[l], '\t');
    }
}

impl FlatpakProvider {
    pub fn new() -> (r: Self) {
        FlatpakProvider
    }

    /// The applications of the `flatpak list --app` output: one item per
    /// row of `flatpak_rows`, see `flatpak_item_is`.
    pub fn parse_flatpak_list(output: &str, index: &KeyedList<DesktopEntryInfo>) -> (r: Vec<ApplicationItem>)
        ensures
            ({
                let rows = flatpak_rows(lines(output@));
                &&& r@.len() == rows.len()
                &&& forall|i: int|
                    0 <= i < r@.len() ==> flatpak_item_is(#[trigger] r@[i], rows[i], index_view(index@))
            }),
    {
        let ls = lines_vec(&vec_of(output));
        let mut apps: Vec<ApplicationItem> = Vec::new();
        let mut i: usize = 0;
        while i < ls.len()
            invariant
                i <= ls.len(),
                ({
                    let rows = flatpak_rows(views(ls@).take(i as int));
                    &&& apps@.len() == rows.len()
                    &&& forall|k: int|
                        0 <= k < apps@.len() ==> flatpak_item_is(#[trigger] apps@[k], rows[k], index_view(index@))
                }),
            decreases ls.len() - i,
        {
            let ghost prev = flatpak_rows(views(ls@).take(i as int));
            assert(views(ls@).take(i + 1).drop_last() =~= views(ls@).take(i as int));
            assert(views(ls@).take(i + 1).last() == ls@[i as int]@);
            let ps = split_all_vec(&ls[i], '\t');
            if ps.len() >= 2 {
                let name = field_of(&ps, 0);
                let app_id = field_of(&ps, 1);
                let version = field_of(&ps, 2);
                let description = field_of(&ps, 3);
                let size = field_of(&ps, 4);
                let key = string_from_chars(&lower_vec(&vec_of(app_id.as_str())));
                proof {
                    assert(index_view(index@).dom() =~= index@.dom());
                }
                let info = index.get(key.as_str());
                let mut run = vec_of("flatpak run ");
                append_str(&mut run, app_id.as_str());
                let mut id = vec_of("flatpak:");
                append_str(&mut id, app_id.as_str());
                let (icon, desktop_file_path) = match info {
                    Some(inf) => (inf.icon.clone(), Some(inf.file_path.clone())),
                    None => (app_id.clone(), None),
                };
                let item = ApplicationItem {
                    id: string_from_chars(&id),
                    package_id: app_id,
                    name,
                    version,
                    description,
                    source: PackageSource::Flatpak,
                    icon,
                    icon_path: None,
                    exec_cmd: Some(string_from_chars(&run)),
                    installed_size_bytes: None,
                    size_formatted: size,
                    desktop_file_path,
                    is_desktop_app: true,
                    selected: false,
                };
                apps.push(item);
                proof {
                    let next = flatpak_rows(views(ls@).take(i + 1));
                    assert(next == prev.push(views(ps@)));
                }
            }
            i += 1;
        }
        assert(views(ls@).take(i as int) =~= views(ls@));
        apps
    }
}

impl PackageManagerProvider for FlatpakProvider {
    fn name(&self) -> (r: &'static str)
        ensures
            r@ == "Flatpak"@,
    {
        "Flatpak"
    }

    fn source(&self) -> (r: PackageSource)
        ensures
            r == PackageSource::Flatpak,
    {
        PackageSource::Flatpak
    }

    fn uninstall_command(&self, package_id: &str) -> (r: (String, Vec<String>))
        ensures
            r.0@ == "flatpak"@,
            str_views(r.1@) == seq!["uninstall"@, "-y"@, package_id@],
    {
        ("flatpak".to_owned(), vec!["uninstall".to_owned(), "-y".to_owned(), package_id.to_owned()])
    }

    fn details_command(&self, package_id: &str) -> (r: (String, Vec<String>))
        ensures
            r.0@ == "flatpak"@,
            str_views(r.1@) == seq!["info"@, package_id@],
    {
        ("flatpak".to_owned(), vec!["info".to_owned(), package_id.to_owned()])
    }
}

} // verus!
