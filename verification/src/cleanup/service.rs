//! The cleanup page's state: the rules in use and the items the last scan
//! found.

use vstd::prelude::*;
use crate::cleanup::analyzer::{Analyzer, after_select_all, toggled};
use crate::cleanup::models::{CleanupItem, CleanupRule};
use crate::cleanup::rules::{RuleDirs, RuleRegistry, rule_is, rule_table};

verus! {

/// The rules a scan applies and the items it found, which the page selects
/// and which a cleanup removes.
pub struct CleanupService {
    pub rules: Vec<CleanupRule>,
    pub cached_items: Vec<CleanupItem>,
}

impl CleanupService {
    /// The built-in rules placed in the given directories, and no items yet.
    pub fn new(dirs: &RuleDirs) -> (r: Self)
        ensures
            r.rules@.len() == rule_table().len(),
            forall|i: int| 0 <= i < r.rules@.len() ==> rule_is(#[trigger] r.rules@[i], rule_table()[i], *dirs),
            r.cached_items@.len() == 0,
    {
        CleanupService { rules: RuleRegistry::get_default_rules(dirs), cached_items: Vec::new() }
    }

    /// Keeps what a finished scan found, in place of what was kept before.
    pub fn scan_finished(&mut self, items: Vec<CleanupItem>)
        ensures
            final(self).cached_items@ == items@,
            final(self).rules@ == old(self).rules@,
    {
        self.cached_items = items;
    }

    /// After a cleanup, drops the items that were selected for it and keeps
    /// the others in their order.
    pub fn clean_finished(&mut self)
        ensures
            final(self).cached_items@ == old(self).cached_items@.filter(|i: CleanupItem| !i.selected),
            final(self).rules@ == old(self).rules@,
    {
        let mut kept: Vec<CleanupItem> = Vec::new();
        let mut i: usize = 0;
        while i < self.cached_items.len()
            invariant
                i <= self.cached_items@.len(),
                kept@ == self.cached_items@.take(i as int).filter(|i: CleanupItem| !i.selected),
            decreases self.cached_items.len() - i,
        {
            proof {
                reveal_with_fuel(Seq::filter, 1);
                assert(self.cached_items@.take(i as int + 1).drop_last() =~= self.cached_items@.take(
                    i as int,
                ));
            }
            if !self.cached_items[i].selected {
                kept.push(self.cached_items[i].clone());
            }
            i += 1;
        }
        proof {
            assert(self.cached_items@.take(i as int) =~= self.cached_items@);
        }
        self.cached_items = kept;
    }

    /// A copy of the items kept.
    pub fn get_cached_items(&self) -> (r: Vec<CleanupItem>)
        ensures
            r@ == self.cached_items@,
    {
        let mut r: Vec<CleanupItem> = Vec::new();
        let mut i: usize = 0;
        while i < self.cached_items.len()
            invariant
                i <= self.cached_items@.len(),
                r@ == self.cached_items@.take(i as int),
            decreases self.cached_items.len() - i,
        {
            r.push(self.cached_items[i].clone());
            proof {
                assert(self.cached_items@.take(i as int + 1) =~= self.cached_items@.take(i as int).push(
                    self.cached_items@[i as int],
                ));
            }
            i += 1;
        }
        proof {
            assert(self.cached_items@.take(i as int) =~= self.cached_items@);
        }
        r
    }

    /// Flips the selection of the first kept item with the id.
    pub fn toggle_item(&mut self, item_id: &str)
        ensures
            final(self).cached_items@ == toggled(old(self).cached_items@, item_id@),
            final(self).rules@ == old(self).rules@,
    {
        Analyzer::toggle_item_selected(&mut self.cached_items, item_id);
    }

    /// Selects every safe kept item, or deselects every kept item.
    pub fn select_all(&mut self, selected: bool)
        ensures
            final(self).cached_items@.len() == old(self).cached_items@.len(),
            forall|i: int| 0 <= i < old(self).cached_items@.len() ==> #[trigger] final(self).cached_items@[i]
                == after_select_all(old(self).cached_items@[i], selected),
            final(self).rules@ == old(self).rules@,
    {
        Analyzer::set_all_selected(&mut self.cached_items, selected);
    }
}

} // verus!
