//! The applications page: the listed applications, search, source filter,
//! page and selection.

use vstd::prelude::*;
use crate::applications::manager::{
    AppError, ApplicationManager, LaunchPlan, clamp_page, details_command_of, launch_plan_is, matching_apps,
    page_count, page_end, page_start, removable_source,
};
use crate::applications::desktop_entries::{copied_lines, shortcut_content, shortcut_file_name};
use crate::applications::traits::str_views;
use crate::paths::path_join;
use crate::split::lines;
use crate::startup::desktop::EntryWrite;
use crate::applications::models::{ApplicationItem, PackageSource};
use crate::text::{vec_eq, vec_of};

verus! {

/// The state of the applications page.
#[derive(Debug)]
pub struct ApplicationService {
    manager: ApplicationManager,
    cached_apps: Vec<ApplicationItem>,
    search_query: String,
    source_filter: Option<PackageSource>,
    current_page: usize,
    page_size: usize,
}

/// Index of the first application with the id, or the number of them.
pub open spec fn first_app_with_id(s: Seq<ApplicationItem>, id: Seq<char>) -> int
    decreases s.len(),
{
    if s.len() == 0 {
        0
    } else if s[0].id@ == id {
        0
    } else {
        1 + first_app_with_id(s.drop_first(), id)
    }
}

proof fn lemma_first_app_is(s: Seq<ApplicationItem>, id: Seq<char>, i: int)
    requires
        0 <= i <= s.len(),
        forall|k: int| 0 <= k < i ==> s[k].id@ != id,
        i < s.len() ==> s[i].id@ == id,
    ensures
        first_app_with_id(s, id) == i,
    decreases i,
{
    if i > 0 {
        assert forall|k: int| 0 <= k < i - 1 implies s.drop_first()[k].id@ != id by {
            assert(s.drop_first()[k] == s[k + 1]);
        }
        lemma_first_app_is(s.drop_first(), id, i - 1);
    }
}

/// The applications with the first one that has the id flipped between
/// selected and not; unchanged when none has it.
pub open spec fn toggled_apps(s: Seq<ApplicationItem>, id: Seq<char>) -> Seq<ApplicationItem> {
    let k = first_app_with_id(s, id);
    if k < s.len() {
        s.update(k, ApplicationItem { selected: !s[k].selected, ..s[k] })
    } else {
        s
    }
}

/// The applications all selected (`true`) or none (`false`).
pub open spec fn all_selected(s: Seq<ApplicationItem>, selected: bool) -> Seq<ApplicationItem> {
    Seq::new(s.len(), |i: int| ApplicationItem { selected, ..s[i] })
}

/// The selected applications, in order.
pub open spec fn selected_apps(s: Seq<ApplicationItem>) -> Seq<ApplicationItem>
    decreases s.len(),
{
    if s.len() == 0 {
        seq![]
    } else if s.last().selected {
        selected_apps(s.drop_last()).push(s.last())
    } else {
        selected_apps(s.drop_last())
    }
}

impl ApplicationService {
    /// The listed applications.
    pub closed spec fn apps(&self) -> Seq<ApplicationItem> {
        self.cached_apps@
    }

    /// The search in force.
    pub closed spec fn query(&self) -> Seq<char> {
        self.search_query@
    }

    /// The source filter in force.
    pub closed spec fn source(&self) -> Option<PackageSource> {
        self.source_filter
    }

    /// The page asked for.
    pub closed spec fn page(&self) -> nat {
        self.current_page as nat
    }

    /// Applications per page.
    pub closed spec fn page_size(&self) -> nat {
        self.page_size as nat
    }

    /// An empty page: no applications, no search or filter, the first
    /// page, ten applications per page.
    pub fn new() -> (r: Self)
        ensures
            r.apps() == Seq::<ApplicationItem>::empty(),
            r.query() == Seq::<char>::empty(),
            r.source() is None,
            r.page() == 1,
            r.page_size() == 10,
    {
        ApplicationService {
            manager: ApplicationManager::new(),
            cached_apps: Vec::new(),
            search_query: String::new(),
            source_filter: None,
            current_page: 1,
            page_size: 10,
        }
    }

    /// Replaces the listed applications (those `ApplicationManager::list_all`
    /// found).
    pub fn refresh_installed_apps(&mut self, apps: Vec<ApplicationItem>)
        ensures
            final(self).apps() == apps@,
            final(self).query() == old(self).query(),
            final(self).source() == old(self).source(),
            final(self).page() == old(self).page(),
            final(self).page_size() == old(self).page_size(),
    {
        self.cached_apps = apps;
    }

    /// The listed applications.
    pub fn get_cached_apps(&self) -> (r: Vec<ApplicationItem>)
        ensures
            r@ == self.apps(),
    {
        let mut out: Vec<ApplicationItem> = Vec::new();
        let mut i: usize = 0;
        while i < self.cached_apps.len()
            invariant
                i <= self.cached_apps@.len(),
                out@ == self.cached_apps@.take(i as int),
            decreases self.cached_apps.len() - i,
        {
            out.push(self.cached_apps[i].clone());
            i += 1;
            assert(out@ =~= self.cached_apps@.take(i as int));
        }
        assert(self.cached_apps@.take(i as int) =~= self.cached_apps@);
        out
    }

    /// Sets the search and goes back to the first page.
    pub fn set_search_query(&mut self, query: String)
        ensures
            final(self).query() == query@,
            final(self).page() == 1,
            final(self).apps() == old(self).apps(),
            final(self).source() == old(self).source(),
            final(self).page_size() == old(self).page_size(),
    {
        self.search_query = query;
        self.current_page = 1;
    }

    /// Sets the source filter and goes back to the first page.
    pub fn set_source_filter(&mut self, source: Option<PackageSource>)
        ensures
            final(self).source() == source,
            final(self).page() == 1,
            final(self).apps() == old(self).apps(),
            final(self).query() == old(self).query(),
            final(self).page_size() == old(self).page_size(),
    {
        self.source_filter = source;
        self.current_page = 1;
    }

    /// Asks for a page.
    pub fn set_page(&mut self, page: usize)
        ensures
            final(self).page() == page,
            final(self).apps() == old(self).apps(),
            final(self).query() == old(self).query(),
            final(self).source() == old(self).source(),
            final(self).page_size() == old(self).page_size(),
    {
        self.current_page = page;
    }

    /// Flips the selection of the first application with the id.
    pub fn toggle_app_selection(&mut self, app_id: &str)
        ensures
            final(self).apps() == toggled_apps(old(self).apps(), app_id@),
            final(self).query() == old(self).query(),
            final(self).source() == old(self).source(),
            final(self).page() == old(self).page(),
            final(self).page_size() == old(self).page_size(),
    {
        let key = vec_of(app_id);
        let mut i: usize = 0;
        while i < self.cached_apps.len() && !vec_eq(&vec_of(self.cached_apps[i].id.as_str()), &key)
            invariant
                i <= self.cached_apps@.len(),
                key@ == app_id@,
                forall|k: int| 0 <= k < i ==> self.cached_apps@[k].id@ != app_id@,
            decreases self.cached_apps.len() - i,
        {
            i += 1;
        }
        proof {
            lemma_first_app_is(self.cached_apps@, app_id@, i as int);
        }
        if i < self.cached_apps.len() {
            let mut app = self.cached_apps[i].clone();
            app.selected = !app.selected;
            self.cached_apps.set(i, app);
        }
    }

    /// Selects every listed application.
    pub fn select_all(&mut self)
        ensures
            final(self).apps() == all_selected(old(self).apps(), true),
            final(self).query() == old(self).query(),
            final(self).source() == old(self).source(),
            final(self).page() == old(self).page(),
            final(self).page_size() == old(self).page_size(),
    {
        self.set_all(true);
    }

    /// Deselects every listed application.
    pub fn deselect_all(&mut self)
        ensures
            final(self).apps() == all_selected(old(self).apps(), false),
            final(self).query() == old(self).query(),
            final(self).source() == old(self).source(),
            final(self).page() == old(self).page(),
            final(self).page_size() == old(self).page_size(),
    {
        self.set_all(false);
    }

    fn set_all(&mut self, selected: bool)
        ensures
            final(self).apps() == all_selected(old(self).apps(), selected),
            final(self).query() == old(self).query(),
            final(self).source() == old(self).source(),
            final(self).page() == old(self).page(),
            final(self).page_size() == old(self).page_size(),
    {
        let mut i: usize = 0;
        while i < self.cached_apps.len()
            invariant
                i <= self.cached_apps@.len(),
                self.cached_apps@.len() == old(self).cached_apps@.len(),
                self.search_query == old(self).search_query,
                self.source_filter == old(self).source_filter,
                self.current_page == old(self).current_page,
                self.page_size == old(self).page_size,
                forall|k: int| 0 <= k < i ==> #[trigger] self.cached_apps@[k] == (ApplicationItem {
                    selected,
                    ..old(self).cached_apps@[k]
                }),
                forall|k: int| i <= k < self.cached_apps@.len() ==> #[trigger] self.cached_apps@[k]
                    == old(self).cached_apps@[k],
            decreases self.cached_apps.len() - i,
        {
            let mut app = self.cached_apps[i].clone();
            app.selected = selected;
            self.cached_apps.set(i, app);
            i += 1;
        }
        assert(self.cached_apps@ =~= all_selected(old(self).cached_apps@, selected));
    }

    /// The page shown: the listed applications that match the search and
    /// filter, the requested page of them (clamped), the page shown, the
    /// number of pages and the number of matching applications.
    pub fn get_current_view(&self) -> (r: (Vec<ApplicationItem>, usize, usize, usize))
        requires
            self.page_size() > 0,
        ensures
            ({
                let m = matching_apps(self.apps(), self.query(), self.source());
                let pages = page_count(m.len(), self.page_size());
                let shown = clamp_page(self.page(), pages);
                &&& r.3 == m.len()
                &&& r.2 == pages
                &&& r.1 == shown
                &&& r.0@ == (if page_start(shown, self.page_size()) < m.len() {
                    m.subrange(page_start(shown, self.page_size()), page_end(shown, self.page_size(), m.len()))
                } else {
                    Seq::<ApplicationItem>::empty()
                })
            }),
    {
        let filtered = ApplicationManager::filter_apps(
            &self.cached_apps,
            self.search_query.as_str(),
            self.source_filter,
        );
        proof {
            lemma_matching_len(self.cached_apps@, self.search_query@, self.source_filter);
        }
        let total = filtered.len();
        let (paged, current, pages) = ApplicationManager::paginate_apps(&filtered, self.current_page, self.page_size);
        (paged, current, pages, total)
    }

    /// The selected applications, in order.
    pub fn get_selected_apps(&self) -> (r: Vec<ApplicationItem>)
        ensures
            r@ == selected_apps(self.apps()),
    {
        let mut out: Vec<ApplicationItem> = Vec::new();
        let mut i: usize = 0;
        while i < self.cached_apps.len()
            invariant
                i <= self.cached_apps@.len(),
                out@ == selected_apps(self.cached_apps@.take(i as int)),
            decreases self.cached_apps.len() - i,
        {
            assert(self.cached_apps@.take(i + 1).drop_last() =~= self.cached_apps@.take(i as int));
            if self.cached_apps[i].selected {
                out.push(self.cached_apps[i].clone());
            }
            i += 1;
        }
        assert(self.cached_apps@.take(i as int) =~= self.cached_apps@);
        out
    }

    /// The first listed application with the id.
    pub fn find_app(&self, app_id: &str) -> (r: Option<&ApplicationItem>)
        ensures
            match r {
                Some(a) => first_app_with_id(self.apps(), app_id@) < self.apps().len() && *a
                    == self.apps()[first_app_with_id(self.apps(), app_id@)],
                None => first_app_with_id(self.apps(), app_id@) == self.apps().len(),
            },
    {
        let key = vec_of(app_id);
        let mut i: usize = 0;
        while i < self.cached_apps.len() && !vec_eq(&vec_of(self.cached_apps[i].id.as_str()), &key)
            invariant
                i <= self.cached_apps@.len(),
                key@ == app_id@,
                forall|k: int| 0 <= k < i ==> self.cached_apps@[k].id@ != app_id@,
            decreases self.cached_apps.len() - i,
        {
            i += 1;
        }
        proof {
            lemma_first_app_is(self.cached_apps@, app_id@, i as int);
        }
        if i < self.cached_apps.len() {
            Some(&self.cached_apps[i])
        } else {
            None
        }
    }
}

proof fn lemma_matching_len(s: Seq<ApplicationItem>, q: Seq<char>, src: Option<PackageSource>)
    ensures
        matching_apps(s, q, src).len() <= s.len(),
    decreases s.len(),
{
    if s.len() > 0 {
        lemma_matching_len(s.drop_last(), q, src);
    }
}

/// Flipping the same application twice restores the selection.
pub proof fn lemma_toggle_app_twice(s: Seq<ApplicationItem>, id: Seq<char>)
    ensures
        toggled_apps(toggled_apps(s, id), id) == s,
{
    let k = first_app_with_id(s, id);
    lemma_first_app_bounds(s, id);
    if k < s.len() {
        let t = toggled_apps(s, id);
        assert forall|j: int| 0 <= j < k implies t[j].id@ != id by {
            assert(t[j] == s[j]);
        }
        lemma_first_app_is(t, id, k);
        assert(toggled_apps(t, id) =~= s);
    }
}

/// After selecting all, the selection is every application; after
/// deselecting all, it is empty.
pub proof fn lemma_select_all_apps(s: Seq<ApplicationItem>)
    ensures
        selected_apps(all_selected(s, true)) == all_selected(s, true),
        selected_apps(all_selected(s, false)) == Seq::<ApplicationItem>::empty(),
    decreases s.len(),
{
    if s.len() > 0 {
        lemma_select_all_apps(s.drop_last());
        assert(all_selected(s, true).drop_last() =~= all_selected(s.drop_last(), true));
        assert(all_selected(s, false).drop_last() =~= all_selected(s.drop_last(), false));
    } else {
        assert(all_selected(s, true) =~= Seq::<ApplicationItem>::empty());
        assert(all_selected(s, false) =~= Seq::<ApplicationItem>::empty());
    }
}

proof fn lemma_first_app_bounds(s: Seq<ApplicationItem>, id: Seq<char>)
    ensures
        0 <= first_app_with_id(s, id) <= s.len(),
        first_app_with_id(s, id) < s.len() ==> s[first_app_with_id(s, id)].id@ == id,
        forall|k: int| 0 <= k < first_app_with_id(s, id) ==> s[k].id@ != id,
    decreases s.len(),
{
    if s.len() > 0 && s[0].id@ != id {
        lemma_first_app_bounds(s.drop_first(), id);
        assert forall|k: int| 0 <= k < first_app_with_id(s, id) implies s[k].id@ != id by {
            if k > 0 {
                assert(s[k] == s.drop_first()[k - 1]);
            }
        }
    }
}

impl ApplicationService {
    /// The sources whose package managers are consulted.
    pub closed spec fn provider_sources(&self) -> Seq<PackageSource> {
        self.manager.provider_sources()
    }

    /// How to start the first listed application with the id; none when no
    /// application has it.
    pub fn launch_app_by_id(&self, app_id: &str) -> (r: Option<LaunchPlan>)
        ensures
            first_app_with_id(self.apps(), app_id@) < self.apps().len() ==> (r matches Some(p)
                && launch_plan_is(p, self.apps()[first_app_with_id(self.apps(), app_id@)])),
            first_app_with_id(self.apps(), app_id@) >= self.apps().len() ==> r is None,
    {
        match self.find_app(app_id) {
            Some(app) => Some(ApplicationManager::launch_app(app)),
            None => None,
        }
    }

    /// The desktop shortcut for the first listed application with the id
    /// (see `ApplicationManager::create_shortcut`); `NotFound` when no
    /// application has it.
    pub fn create_shortcut_by_id(&self, app_id: &str, desktop_dir: &str, original: Option<&str>) -> (r: Result<
        EntryWrite,
        AppError,
    >)
        ensures
            ({
                let k = first_app_with_id(self.apps(), app_id@);
                &&& k >= self.apps().len() ==> r == Err::<EntryWrite, AppError>(AppError::NotFound)
                &&& k < self.apps().len() ==> (r matches Ok(w) && w.path@ == path_join(
                    desktop_dir@,
                    shortcut_file_name(self.apps()[k].name@),
                ) && w.content@ == match original {
                    Some(c) => copied_lines(lines(c@), self.apps()[k].icon@),
                    None => shortcut_content(self.apps()[k]),
                })
            }),
    {
        match self.find_app(app_id) {
            Some(app) => Ok(ApplicationManager::create_shortcut(app, desktop_dir, original)),
            None => Err(AppError::NotFound),
        }
    }

    /// The command that describes the first listed application with the
    /// id; none when no application has it or no package manager consulted
    /// handles its source.
    pub fn get_details_by_id(&self, app_id: &str) -> (r: Option<(String, Vec<String>)>)
        ensures
            ({
                let k = first_app_with_id(self.apps(), app_id@);
                let app = self.apps()[k];
                &&& r is Some <==> (k < self.apps().len() && self.provider_sources().contains(app.source)
                    && removable_source(app.source))
                &&& r matches Some(c) ==> c.0@ == details_command_of(app.source, app.package_id@).0
                    && str_views(c.1@) == details_command_of(app.source, app.package_id@).1
            }),
    {
        match self.find_app(app_id) {
            Some(app) => self.manager.get_details(app),
            None => None,
        }
    }
}

} // verus!
