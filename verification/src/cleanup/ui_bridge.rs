//! What the cleanup page shows, and what it does when the user acts on it.

use vstd::prelude::*;
use crate::cleanup::analyzer::{
    Analyzer, first_with_id, lemma_first_with_id, lemma_first_with_id_is, selected_bytes, selected_count,
};
use crate::cleanup::models::{CleanupItem, RiskLevel};
use crate::cleanup::scanner::{Scanner, cleanup_size_text};
use crate::cleanup::service::CleanupService;
use crate::localization::{LocalizationService, text_of};
use crate::text::{vec_eq, vec_of};

verus! {

/// One found item as the page lists it.
#[derive(Debug)]
pub struct CleanupItemRow {
    pub id: String,
    pub name: String,
    pub path_str: String,
    pub size_str: String,
    pub risk_level_code: String,
    pub risk_level_text: String,
    pub is_selected: bool,
}

/// The list and the totals the cleanup page shows.
#[derive(Debug)]
pub struct CleanupPage {
    pub items: Vec<CleanupItemRow>,
    pub total_found_size_str: String,
    pub total_found_items_count: usize,
    pub total_selected_size_str: String,
    pub total_selected_items_count: usize,
}

/// A user action on the cleanup page.
pub enum CleanupEvent {
    StartScan,
    Cancel,
    SelectAll,
    DeselectAll,
    ToggleItem(String),
    OpenItem(String),
    CleanSelected,
}

/// What the window does after an action.
#[derive(Debug)]
pub enum CleanupAction {
    /// Show the scanning state with this status text and run a full scan.
    Scan { status_text: String },
    /// Stop the scan or cleanup that is running.
    Cancel,
    /// Redraw the page from the kept items.
    Redraw,
    /// Open this path in the file manager.
    Open(String),
    /// Nothing to do.
    Nothing,
    /// Show the preparing state with this status text, then remove these
    /// items; with none, leave the preparing state at once.
    Clean { status_text: String, items: Vec<CleanupItem> },
}

/// The total size of the items.
pub open spec fn total_bytes(s: Seq<CleanupItem>) -> nat
    decreases s.len(),
{
    if s.len() == 0 {
        0
    } else {
        total_bytes(s.drop_last()) + s.last().size_bytes as nat
    }
}

/// The code the page styles a risk level by.
pub open spec fn risk_code(r: RiskLevel) -> Seq<char> {
    match r {
        RiskLevel::Safe => "safe"@,
        RiskLevel::Warning => "warning"@,
        RiskLevel::Dangerous => "dangerous"@,
    }
}

/// The translation key of a risk level's label.
pub open spec fn risk_key(r: RiskLevel) -> Seq<char> {
    match r {
        RiskLevel::Safe => "cleanup.risk.safe"@,
        RiskLevel::Warning => "cleanup.risk.warning"@,
        RiskLevel::Dangerous => "cleanup.risk.dangerous"@,
    }
}

/// How the page lists an item: its name translated, its risk by code and
/// translated label.
pub open spec fn row_is(row: CleanupItemRow, item: CleanupItem, loc: LocalizationService) -> bool {
    &&& row.id@ == item.id@
    &&& row.name@ == text_of(loc, item.name@)
    &&& row.path_str@ == item.path@
    &&& row.size_str@ == item.size_formatted@
    &&& row.risk_level_code@ == risk_code(item.safety_level)
    &&& row.risk_level_text@ == text_of(loc, risk_key(item.safety_level))
    &&& row.is_selected == item.selected
}

/// The selected items, in order.
pub open spec fn selected_items(s: Seq<CleanupItem>) -> Seq<CleanupItem> {
    s.filter(|i: CleanupItem| i.selected)
}

proof fn lemma_selected_within_total(s: Seq<CleanupItem>)
    ensures
        selected_bytes(s) <= total_bytes(s),
    decreases s.len(),
{
    if s.len() > 0 {
        lemma_selected_within_total(s.drop_last());
    }
}

fn risk_row(loc: &LocalizationService, r: RiskLevel) -> (out: (String, String))
    ensures
        out.0@ == risk_code(r),
        out.1@ == text_of(*loc, risk_key(r)),
{
    match r {
        RiskLevel::Safe => ("safe".to_owned(), loc.t("cleanup.risk.safe")),
        RiskLevel::Warning => ("warning".to_owned(), loc.t("cleanup.risk.warning")),
        RiskLevel::Dangerous => ("dangerous".to_owned(), loc.t("cleanup.risk.dangerous")),
    }
}

/// The list and totals for the kept items: each item with its name and
/// risk translated; the number and total size of all items and of the
/// selected ones.
pub fn update_cleanup_ui(items: &Vec<CleanupItem>, loc: &LocalizationService) -> (r: CleanupPage)
    requires
        total_bytes(items@) <= u64::MAX,
    ensures
        r.items@.len() == items@.len(),
        forall|i: int| 0 <= i < items@.len() ==> row_is(#[trigger] r.items@[i], items@[i], *loc),
        r.total_found_size_str@ == cleanup_size_text(total_bytes(items@)),
        r.total_found_items_count == items@.len(),
        r.total_selected_size_str@ == cleanup_size_text(selected_bytes(items@)),
        r.total_selected_items_count == selected_count(items@),
{
    let mut rows: Vec<CleanupItemRow> = Vec::new();
    let mut total: u64 = 0;
    let mut i: usize = 0;
    while i < items.len()
        invariant
            i <= items@.len(),
            total_bytes(items@) <= u64::MAX,
            total == total_bytes(items@.take(i as int)),
            rows@.len() == i,
            forall|k: int| 0 <= k < i ==> row_is(#[trigger] rows@[k], items@[k], *loc),
        decreases items.len() - i,
    {
        proof {
            assert(items@.take(i as int + 1).drop_last() =~= items@.take(i as int));
            lemma_total_prefix(items@, i as int + 1);
        }
        let item = &items[i];
        total = total + item.size_bytes;
        let (code, text) = risk_row(loc, item.safety_level);
        rows.push(
            CleanupItemRow {
                id: item.id.clone(),
                name: loc.t(item.name.as_str()),
                path_str: item.path.clone(),
                size_str: item.size_formatted.clone(),
                risk_level_code: code,
                risk_level_text: text,
                is_selected: item.selected,
            },
        );
        i += 1;
    }
    proof {
        assert(items@.take(i as int) =~= items@);
        lemma_selected_within_total(items@);
    }
    let (count, _, selected_text) = Analyzer::calculate_selected_summary(items);
    CleanupPage {
        items: rows,
        total_found_size_str: Scanner::format_bytes(total),
        total_found_items_count: items.len(),
        total_selected_size_str: selected_text,
        total_selected_items_count: count,
    }
}

proof fn lemma_total_prefix(s: Seq<CleanupItem>, n: int)
    requires
        0 <= n <= s.len(),
    ensures
        total_bytes(s.take(n)) <= total_bytes(s),
    decreases s.len() - n,
{
    if n < s.len() {
        lemma_total_prefix(s, n + 1);
        assert(s.take(n + 1).drop_last() =~= s.take(n));
    } else {
        assert(s.take(n) =~= s);
    }
}

/// The path of the first kept item with the id.
fn path_of(items: &Vec<CleanupItem>, id: &str) -> (r: Option<String>)
    ensures
        first_with_id(items@, id@) < items@.len() ==> (r matches Some(p) && p@
            == items@[first_with_id(items@, id@)].path@),
        first_with_id(items@, id@) >= items@.len() ==> r is None,
{
    proof {
        lemma_first_with_id(items@, id@);
    }
    let key = vec_of(id);
    let mut i: usize = 0;
    while i < items.len()
        invariant
            i <= items@.len(),
            key@ == id@,
            forall|k: int| 0 <= k < i ==> items@[k].id@ != id@,
        decreases items.len() - i,
    {
        if vec_eq(&vec_of(items[i].id.as_str()), &key) {
            proof {
                lemma_first_with_id_is(items@, id@, i as int);
            }
            return Some(items[i].path.clone());
        }
        i += 1;
    }
    proof {
        lemma_first_with_id_is(items@, id@, i as int);
    }
    None
}

/// The selected kept items, in order.
fn selected_of(items: &Vec<CleanupItem>) -> (r: Vec<CleanupItem>)
    ensures
        r@ == selected_items(items@),
{
    let mut out: Vec<CleanupItem> = Vec::new();
    let mut i: usize = 0;
    while i < items.len()
        invariant
            i <= items@.len(),
            out@ == selected_items(items@.take(i as int)),
        decreases items.len() - i,
    {
        proof {
            reveal_with_fuel(Seq::filter, 1);
            assert(items@.take(i as int + 1).drop_last() =~= items@.take(i as int));
        }
        if items[i].selected {
            out.push(items[i].clone());
        }
        i += 1;
    }
    proof {
        assert(items@.take(i as int) =~= items@);
    }
    out
}

/// Applies a user action to the page's state and says what the window does
/// next. Selecting, deselecting and toggling change the kept items and
/// redraw; opening finds the first kept item with the id; cleaning hands
/// over the selected items.
pub fn handle_cleanup_event(service: &mut CleanupService, loc: &LocalizationService, event: CleanupEvent) -> (r:
    CleanupAction)
    ensures
        final(service).rules@ == old(service).rules@,
        match event {
            CleanupEvent::StartScan => {
                &&& final(service).cached_items@ == old(service).cached_items@
                &&& r matches CleanupAction::Scan { status_text }
                &&& status_text@ == text_of(*loc, "cleanup.status_scanning"@)
            },
            CleanupEvent::Cancel => final(service).cached_items@ == old(service).cached_items@
                && r is Cancel,
            CleanupEvent::SelectAll => {
                &&& final(service).cached_items@.len() == old(service).cached_items@.len()
                &&& forall|i: int| 0 <= i < old(service).cached_items@.len()
                    ==> #[trigger] final(service).cached_items@[i]
                    == crate::cleanup::analyzer::after_select_all(old(service).cached_items@[i], true)
                &&& r is Redraw
            },
            CleanupEvent::DeselectAll => {
                &&& final(service).cached_items@.len() == old(service).cached_items@.len()
                &&& forall|i: int| 0 <= i < old(service).cached_items@.len()
                    ==> #[trigger] final(service).cached_items@[i]
                    == crate::cleanup::analyzer::after_select_all(old(service).cached_items@[i], false)
                &&& r is Redraw
            },
            CleanupEvent::ToggleItem(id) => final(service).cached_items@
                == crate::cleanup::analyzer::toggled(old(service).cached_items@, id@) && r is Redraw,
            CleanupEvent::OpenItem(id) => {
                let k = first_with_id(old(service).cached_items@, id@);
                &&& final(service).cached_items@ == old(service).cached_items@
                &&& k < old(service).cached_items@.len() ==> (r matches CleanupAction::Open(p) && p@
                    == old(service).cached_items@[k].path@)
                &&& k >= old(service).cached_items@.len() ==> r is Nothing
            },
            CleanupEvent::CleanSelected => {
                &&& final(service).cached_items@ == old(service).cached_items@
                &&& r matches CleanupAction::Clean { status_text, items }
                &&& status_text@ == text_of(*loc, "cleanup.status_preparing"@)
                &&& items@ == selected_items(old(service).cached_items@)
            },
        },
{
    match event {
        CleanupEvent::StartScan => CleanupAction::Scan { status_text: loc.t("cleanup.status_scanning") },
        CleanupEvent::Cancel => CleanupAction::Cancel,
        CleanupEvent::SelectAll => {
            service.select_all(true);
            CleanupAction::Redraw
        },
        CleanupEvent::DeselectAll => {
            service.select_all(false);
            CleanupAction::Redraw
        },
        CleanupEvent::ToggleItem(id) => {
            service.toggle_item(id.as_str());
            CleanupAction::Redraw
        },
        CleanupEvent::OpenItem(id) => match path_of(&service.cached_items, id.as_str()) {
            Some(p) => CleanupAction::Open(p),
            None => CleanupAction::Nothing,
        },
        CleanupEvent::CleanSelected => {
            let items = selected_of(&service.cached_items);
            CleanupAction::Clean { status_text: loc.t("cleanup.status_preparing"), items }
        },
    }
}

} // verus!
