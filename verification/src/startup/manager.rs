//! Operations on the listed autostart entries.

use vstd::prelude::*;
use crate::paths::path_join;
use crate::sort::stable_sort;
use crate::startup::desktop::{
    DesktopAutostart, EntryWrite, StartupError, desktop_content, entry_file_name, request_error,
};
use crate::startup::models::{CreateStartupRequest, StartupItem, StartupSource};
use crate::startup::scanner::{StartupScanner, merge_entries};
use crate::text::{contains, lowercase, lower_vec, to_lowercase, trim, trim_vec, vec_contains, vec_eq, vec_of};

verus! {

/// Lists, adds, switches and removes autostart entries.
#[derive(Clone, Copy)]
pub struct StartupManager;

/// Index of the first entry with the id, or the number of entries.
pub open spec fn index_of_id(s: Seq<StartupItem>, id: Seq<char>) -> int
    decreases s.len(),
{
    if s.len() == 0 {
        0
    } else if s[0].id@ == id {
        0
    } else {
        1 + index_of_id(s.drop_first(), id)
    }
}

proof fn lemma_index_of_id_is(s: Seq<StartupItem>, id: Seq<char>, i: int)
    requires
        0 <= i <= s.len(),
        forall|k: int| 0 <= k < i ==> s[k].id@ != id,
        i < s.len() ==> s[i].id@ == id,
    ensures
        index_of_id(s, id) == i,
    decreases i,
{
    if i > 0 {
        assert forall|k: int| 0 <= k < i - 1 implies s.drop_first()[k].id@ != id by {
            assert(s.drop_first()[k] == s[k + 1]);
        }
        lemma_index_of_id_is(s.drop_first(), id, i - 1);
    }
}

/// The position of the entry with the id, if some entry has it.
fn find_item(items: &Vec<StartupItem>, item_id: &str) -> (r: Option<usize>)
    ensures
        match r {
            Some(i) => i == index_of_id(items@, item_id@) && i < items@.len(),
            None => index_of_id(items@, item_id@) == items@.len(),
        },
{
    let key = vec_of(item_id);
    let mut i: usize = 0;
    while i < items.len() && !vec_eq(&vec_of(items[i].id.as_str()), &key)
        invariant
            i <= items@.len(),
            key@ == item_id@,
            forall|k: int| 0 <= k < i ==> items@[k].id@ != item_id@,
        decreases items.len() - i,
    {
        i += 1;
    }
    proof {
        lemma_index_of_id_is(items@, item_id@, i as int);
    }
    if i < items.len() {
        Some(i)
    } else {
        None
    }
}

impl StartupManager {
    pub fn new() -> (r: Self) {
        StartupManager
    }

    /// The entries of the system and user directories: see
    /// `StartupScanner::scan_all`.
    pub fn list_items(&self, system_entries: Vec<StartupItem>, user_entries: Vec<StartupItem>) -> (r: Vec<StartupItem>)
        ensures
            r@ == stable_sort(merge_entries(system_entries@ + user_entries@)),
    {
        StartupScanner::scan_all(system_entries, user_entries)
    }

    /// The file and text of a new user entry: see
    /// `DesktopAutostart::write_user_autostart_entry`.
    pub fn add_item(&self, req: &CreateStartupRequest, user_dir: &str, home: &str, path_exists: bool) -> (r: Result<EntryWrite, StartupError>)
        ensures
            match r {
                Ok(w) => request_error(*req) is None && w.path@ == path_join(
                    user_dir@,
                    entry_file_name(req.name@),
                ) && w.content@ == desktop_content(*req, home@, path_exists),
                Err(e) => request_error(*req) == Some(e),
            },
    {
        DesktopAutostart::write_user_autostart_entry(req, user_dir, home, path_exists)
    }

    /// The entry to switch: the first with the id, or `NotFound`.
    pub fn toggle_item<'a>(&self, items: &'a Vec<StartupItem>, item_id: &str) -> (r: Result<&'a StartupItem, StartupError>)
        ensures
            match r {
                Ok(item) => index_of_id(items@, item_id@) < items@.len() && *item == items@[index_of_id(
                    items@,
                    item_id@,
                )],
                Err(e) => e == StartupError::NotFound && index_of_id(items@, item_id@) == items@.len(),
            },
    {
        match find_item(items, item_id) {
            Some(i) => Ok(&items[i]),
            None => Err(StartupError::NotFound),
        }
    }

    /// What removing the entry with the id takes: see
    /// `DesktopAutostart::remove_entry`; `NotFound` when no entry has it.
    pub fn remove_item(&self, items: &Vec<StartupItem>, item_id: &str, user_dir: &str) -> (r: Result<(String, bool), StartupError>)
        ensures
            match r {
                Ok((path, disable)) => {
                    let k = index_of_id(items@, item_id@);
                    &&& k < items@.len()
                    &&& path@ == path_join(user_dir@, items@[k].file_name@)
                    &&& disable == (items@[k].source == StartupSource::System)
                },
                Err(e) => e == StartupError::NotFound && index_of_id(items@, item_id@) == items@.len(),
            },
    {
        match find_item(items, item_id) {
            Some(i) => Ok(DesktopAutostart::remove_entry(&items[i], user_dir)),
            None => Err(StartupError::NotFound),
        }
    }
}

/// An entry matches a search: the trimmed, lowercase query is empty or
/// occurs in the lowercase name, command or comment.
pub open spec fn entry_matches(item: StartupItem, query: Seq<char>) -> bool {
    let q = lowercase(trim(query));
    q.len() == 0 || contains(lowercase(item.name@), q) || contains(lowercase(item.command@), q)
        || contains(lowercase(item.comment@), q)
}

/// The entries that match, in order.
pub open spec fn matching_entries(s: Seq<StartupItem>, query: Seq<char>) -> Seq<StartupItem>
    decreases s.len(),
{
    if s.len() == 0 {
        seq![]
    } else if entry_matches(s.last(), query) {
        matching_entries(s.drop_last(), query).push(s.last())
    } else {
        matching_entries(s.drop_last(), query)
    }
}

/// The listed entries and the search in force.
pub struct StartupService {
    manager: StartupManager,
    cached_items: Vec<StartupItem>,
    search_query: String,
}

impl StartupService {
    /// The listed entries.
    pub closed spec fn items(&self) -> Seq<StartupItem> {
        self.cached_items@
    }

    /// The search in force.
    pub closed spec fn query(&self) -> Seq<char> {
        self.search_query@
    }

    /// A service over the listed entries, with no search.
    pub fn new(initial_items: Vec<StartupItem>) -> (r: Self)
        ensures
            r.items() == initial_items@,
            r.query() == Seq::<char>::empty(),
    {
        StartupService { manager: StartupManager::new(), cached_items: initial_items, search_query: String::new() }
    }

    /// Replaces the listed entries.
    pub fn refresh_items(&mut self, items: Vec<StartupItem>)
        ensures
            final(self).items() == items@,
            final(self).query() == old(self).query(),
    {
        self.cached_items = items;
    }

    /// Sets the search.
    pub fn set_search_query(&mut self, query: String)
        ensures
            final(self).query() == query@,
            final(self).items() == old(self).items(),
    {
        self.search_query = query;
    }

    /// The listed entries that match the search, in order.
    pub fn get_filtered_items(&self) -> (r: Vec<StartupItem>)
        ensures
            r@ == matching_entries(self.items(), self.query()),
    {
        let q = lower_vec(&trim_vec(&vec_of(self.search_query.as_str())));
        let mut out: Vec<StartupItem> = Vec::new();
        let mut i: usize = 0;
        while i < self.cached_items.len()
            invariant
                i <= self.cached_items@.len(),
                q@ == lowercase(trim(self.search_query@)),
                out@ == matching_entries(self.cached_items@.take(i as int), self.search_query@),
            decreases self.cached_items.len() - i,
        {
            let item = &self.cached_items[i];
            let keep = q.len() == 0 || vec_contains(&lower_vec(&vec_of(item.name.as_str())), &q)
                || vec_contains(&lower_vec(&vec_of(item.command.as_str())), &q) || vec_contains(
                &lower_vec(&vec_of(item.comment.as_str())),
                &q,
            );
            assert(self.cached_items@.take(i + 1).drop_last() =~= self.cached_items@.take(i as int));
            if keep {
                out.push(item.clone());
            }
            i += 1;
        }
        assert(self.cached_items@.take(i as int) =~= self.cached_items@);
        out
    }
}

} // verus!
