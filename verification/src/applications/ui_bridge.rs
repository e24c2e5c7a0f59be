//! What the applications page shows, and how it changes when the user
//! searches, pages and selects.

use vstd::prelude::*;
use crate::applications::manager::{clamp_page, matching_apps, page_count, page_end, page_start};
use crate::applications::models::{ApplicationItem, PackageSource, package_code};
use crate::applications::service::{ApplicationService, all_selected, selected_apps, toggled_apps};

verus! {

/// A user action on the applications page that changes what it shows.
pub enum ApplicationsEvent {
    Search(String),
    PageChange(i32),
    SelectAll,
    DeselectAll,
    ToggleApp(String),
}

/// One application as the page shows it.
#[derive(Debug)]
pub struct AppCardRow {
    pub id: String,
    pub name: String,
    pub version: String,
    pub source_name: String,
    pub source_code: String,
    pub description: String,
    pub icon_path: Option<String>,
    pub is_desktop_app: bool,
    pub is_selected: bool,
}

/// The cards, the page shown, the number of pages, the number of matching
/// applications and the number of selected ones.
#[derive(Debug)]
pub struct ApplicationsPage {
    pub apps: Vec<AppCardRow>,
    pub current_page: usize,
    pub total_pages: usize,
    pub total_items: usize,
    pub selected_count: usize,
}

/// The name shown for a source.
pub open spec fn source_name(s: PackageSource) -> Seq<char> {
    match s {
        PackageSource::Pacman => "Pacman"@,
        PackageSource::Aur => "AUR"@,
        PackageSource::Flatpak => "Flatpak"@,
        PackageSource::Snap => "Snap"@,
        PackageSource::Dpkg => "APT"@,
        PackageSource::Rpm => "RPM"@,
        PackageSource::AppImage => "AppImage"@,
    }
}

/// How the page shows an application.
pub open spec fn app_card_is(row: AppCardRow, app: ApplicationItem) -> bool {
    &&& row.id@ == app.id@
    &&& row.name@ == app.name@
    &&& row.version@ == app.version@
    &&& row.source_name@ == source_name(app.source)
    &&& row.source_code@ == package_code(app.source)
    &&& row.description@ == app.description@
    &&& match app.icon_path {
        Some(p) => row.icon_path matches Some(q) && q@ == p@,
        None => row.icon_path is None,
    }
    &&& row.is_desktop_app == app.is_desktop_app
    &&& row.is_selected == app.selected
}

/// The page asked for by the page selector: its number, at least 1.
pub fn page_of_ui(page_num: i32) -> (r: usize)
    ensures
        r == (if (page_num as usize) < 1 {
            1
        } else {
            page_num as usize
        }),
{
    let p = page_num as usize;
    if p < 1 {
        1
    } else {
        p
    }
}

/// Applies an action to the page's state: a search (which shows the first
/// page again), another page, or a change of the selection.
pub fn handle_applications_event(service: &mut ApplicationService, event: ApplicationsEvent)
    ensures
        final(service).page_size() == old(service).page_size(),
        final(service).source() == old(service).source(),
        match event {
            ApplicationsEvent::Search(q) => {
                &&& final(service).query() == q@
                &&& final(service).page() == 1
                &&& final(service).apps() == old(service).apps()
            },
            ApplicationsEvent::PageChange(n) => {
                &&& final(service).page() == (if (n as usize) < 1 {
                    1
                } else {
                    n as usize
                })
                &&& final(service).query() == old(service).query()
                &&& final(service).apps() == old(service).apps()
            },
            ApplicationsEvent::SelectAll => {
                &&& final(service).apps() == all_selected(old(service).apps(), true)
                &&& final(service).query() == old(service).query()
                &&& final(service).page() == old(service).page()
            },
            ApplicationsEvent::DeselectAll => {
                &&& final(service).apps() == all_selected(old(service).apps(), false)
                &&& final(service).query() == old(service).query()
                &&& final(service).page() == old(service).page()
            },
            ApplicationsEvent::ToggleApp(id) => {
                &&& final(service).apps() == toggled_apps(old(service).apps(), id@)
                &&& final(service).query() == old(service).query()
                &&& final(service).page() == old(service).page()
            },
        },
{
    match event {
        ApplicationsEvent::Search(q) => service.set_search_query(q),
        ApplicationsEvent::PageChange(n) => {
            let page = page_of_ui(n);
            service.set_page(page);
        },
        ApplicationsEvent::SelectAll => service.select_all(),
        ApplicationsEvent::DeselectAll => service.deselect_all(),
        ApplicationsEvent::ToggleApp(id) => service.toggle_app_selection(id.as_str()),
    }
}

fn card_of(app: &ApplicationItem) -> (r: AppCardRow)
    ensures
        app_card_is(r, *app),
{
    let icon_path = match &app.icon_path {
        Some(p) => Some(p.clone()),
        None => None,
    };
    AppCardRow {
        id: app.id.clone(),
        name: app.name.clone(),
        version: app.version.clone(),
        source_name: app.source.as_str().to_owned(),
        source_code: app.source.code().to_owned(),
        description: app.description.clone(),
        icon_path,
        is_desktop_app: app.is_desktop_app,
        is_selected: app.selected,
    }
}

/// What the page shows: the cards of the page shown (see
/// `ApplicationService::get_current_view`), the paging numbers and the
/// number of selected applications.
pub fn update_applications_view(service: &ApplicationService) -> (r: ApplicationsPage)
    requires
        service.page_size() > 0,
    ensures
        ({
            let m = matching_apps(service.apps(), service.query(), service.source());
            let pages = page_count(m.len(), service.page_size());
            let shown = clamp_page(service.page(), pages);
            let slice = if page_start(shown, service.page_size()) < m.len() {
                m.subrange(page_start(shown, service.page_size()), page_end(shown, service.page_size(), m.len()))
            } else {
                Seq::<ApplicationItem>::empty()
            };
            &&& r.apps@.len() == slice.len()
            &&& forall|i: int| 0 <= i < slice.len() ==> app_card_is(#[trigger] r.apps@[i], slice[i])
            &&& r.current_page == shown
            &&& r.total_pages == pages
            &&& r.total_items == m.len()
            &&& r.selected_count == selected_apps(service.apps()).len()
        }),
{
    let (items, current_page, total_pages, total_items) = service.get_current_view();
    let selected = service.get_selected_apps();
    let mut rows: Vec<AppCardRow> = Vec::new();
    let mut i: usize = 0;
    while i < items.len()
        invariant
            i <= items@.len(),
            rows@.len() == i,
            forall|k: int| 0 <= k < i ==> app_card_is(#[trigger] rows@[k], items@[k]),
        decreases items.len() - i,
    {
        rows.push(card_of(&items[i]));
        i += 1;
    }
    ApplicationsPage { apps: rows, current_page, total_pages, total_items, selected_count: selected.len() }
}

} // verus!
