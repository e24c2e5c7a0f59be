//! Selection and filtering of found items.

use vstd::prelude::*;
use crate::cleanup::models::{CleanupCategory, CleanupItem, RiskLevel};
use crate::cleanup::scanner::{Scanner, cleanup_size_text};
use crate::text::{contains, lowercase, lower_vec, to_lowercase, vec_contains, vec_eq, vec_of};

verus! {

/// Summaries, selection changes and filters over found items.
pub struct Analyzer;

/// How many of the items are selected.
pub open spec fn selected_count(s: Seq<CleanupItem>) -> nat
    decreases s.len(),
{
    if s.len() == 0 {
        0
    } else {
        selected_count(s.drop_last()) + if s.last().selected {
            1nat
        } else {
            0nat
        }
    }
}

/// The total size of the selected items.
pub open spec fn selected_bytes(s: Seq<CleanupItem>) -> nat
    decreases s.len(),
{
    if s.len() == 0 {
        0
    } else {
        selected_bytes(s.drop_last()) + if s.last().selected {
            s.last().size_bytes as nat
        } else {
            0nat
        }
    }
}

/// The item after "select all" (`true`) or "deselect all" (`false`):
/// selecting reaches only safe items; deselecting clears every item.
pub open spec fn after_select_all(item: CleanupItem, selected: bool) -> CleanupItem {
    if !selected || item.safety_level == RiskLevel::Safe {
        CleanupItem { selected, ..item }
    } else {
        item
    }
}

/// Index of the first item with the id, or the number of items.
pub open spec fn first_with_id(s: Seq<CleanupItem>, id: Seq<char>) -> int
    decreases s.len(),
{
    if s.len() == 0 {
        0
    } else if s[0].id@ == id {
        0
    } else {
        1 + first_with_id(s.drop_first(), id)
    }
}

/// The items with the first one that has the id flipped between selected
/// and not selected; unchanged when no item has the id.
pub open spec fn toggled(s: Seq<CleanupItem>, id: Seq<char>) -> Seq<CleanupItem> {
    let k = first_with_id(s, id);
    if k < s.len() {
        s.update(k, CleanupItem { selected: !s[k].selected, ..s[k] })
    } else {
        s
    }
}

/// An item passes the filter: in the category, when one is given, and,
/// when the query is not empty, with the lowercase query in its lowercase
/// name or path.
pub open spec fn item_matches(item: CleanupItem, category: Option<CleanupCategory>, query: Seq<char>) -> bool {
    let cat_ok = match category {
        Some(c) => item.category == c,
        None => true,
    };
    let query_ok = query.len() == 0 || contains(lowercase(item.name@), lowercase(query))
        || contains(lowercase(item.path@), lowercase(query));
    cat_ok && query_ok
}

/// The items that pass the filter, in order.
pub open spec fn filtered(s: Seq<CleanupItem>, category: Option<CleanupCategory>, query: Seq<char>) -> Seq<CleanupItem>
    decreases s.len(),
{
    if s.len() == 0 {
        seq![]
    } else if item_matches(s.last(), category, query) {
        filtered(s.drop_last(), category, query).push(s.last())
    } else {
        filtered(s.drop_last(), category, query)
    }
}

pub proof fn lemma_first_with_id(s: Seq<CleanupItem>, id: Seq<char>)
    ensures
        0 <= first_with_id(s, id) <= s.len(),
        first_with_id(s, id) < s.len() ==> s[first_with_id(s, id)].id@ == id,
        forall|k: int| 0 <= k < first_with_id(s, id) ==> s[k].id@ != id,
    decreases s.len(),
{
    if s.len() > 0 && s[0].id@ != id {
        lemma_first_with_id(s.drop_first(), id);
        assert forall|k: int| 0 <= k < first_with_id(s, id) implies s[k].id@ != id by {
            if k > 0 {
                assert(s[k] == s.drop_first()[k - 1]);
            }
        }
    }
}

impl Analyzer {
    /// The number of selected items, their total size and that size
    /// rendered.
    pub fn calculate_selected_summary(items: &Vec<CleanupItem>) -> (r: (usize, u64, String))
        requires
            selected_bytes(items@) <= u64::MAX,
        ensures
            r.0 == selected_count(items@),
            r.1 == selected_bytes(items@),
            r.2@ == cleanup_size_text(selected_bytes(items@)),
    {
        let mut count: usize = 0;
        let mut total: u64 = 0;
        let mut i: usize = 0;
        while i < items.len()
            invariant
                i <= items@.len(),
                selected_bytes(items@) <= u64::MAX,
                count == selected_count(items@.take(i as int)),
                total == selected_bytes(items@.take(i as int)),
                count <= i,
            decreases items.len() - i,
        {
            proof {
                assert(items@.take(i + 1).drop_last() =~= items@.take(i as int));
                lemma_selected_bytes_prefix(items@, i + 1);
            }
            if items[i].selected {
                count += 1;
                total += items[i].size_bytes;
            }
            i += 1;
        }
        assert(items@.take(i as int) =~= items@);
        let text = Scanner::format_bytes(total);
        (count, total, text)
    }

    /// Selects every safe item (`true`), leaving warnings and dangerous
    /// items as they are, or deselects every item (`false`).
    pub fn set_all_selected(items: &mut Vec<CleanupItem>, selected: bool)
        ensures
            final(items)@.len() == old(items)@.len(),
            forall|i: int| 0 <= i < old(items)@.len() ==> #[trigger] final(items)@[i] == after_select_all(
                old(items)@[i],
                selected,
            ),
    {
        let mut i: usize = 0;
        while i < items.len()
            invariant
                i <= items@.len(),
                items@.len() == old(items)@.len(),
                forall|k: int| 0 <= k < i ==> #[trigger] items@[k] == after_select_all(
                    old(items)@[k],
                    selected,
                ),
                forall|k: int| i <= k < items@.len() ==> #[trigger] items@[k] == old(items)@[k],
            decreases items.len() - i,
        {
            let is_safe = match items[i].safety_level {
                RiskLevel::Safe => true,
                _ => false,
            };
            if !selected || is_safe {
                let mut item = items[i].clone();
                item.selected = selected;
                items.set(i, item);
            }
            i += 1;
        }
    }

    /// Flips the selection of the first item with the id; nothing changes
    /// when no item has it.
    pub fn toggle_item_selected(items: &mut Vec<CleanupItem>, item_id: &str)
        ensures
            final(items)@ == toggled(old(items)@, item_id@),
    {
        proof {
            lemma_first_with_id(items@, item_id@);
        }
        let key = vec_of(item_id);
        let mut i: usize = 0;
        while i < items.len()
            invariant
                i <= items@.len(),
                items@ == old(items)@,
                key@ == item_id@,
                forall|k: int| 0 <= k < i ==> items@[k].id@ != item_id@,
            decreases items.len() - i,
        {
            if vec_eq(&vec_of(items[i].id.as_str()), &key) {
                proof {
                    assert(first_with_id(items@, item_id@) == i) by {
                        lemma_first_with_id_is(items@, item_id@, i as int);
                    }
                }
                let mut item = items[i].clone();
                item.selected = !item.selected;
                items.set(i, item);
                return;
            }
            i += 1;
        }
        proof {
            lemma_first_with_id_is(items@, item_id@, i as int);
        }
    }

    /// The items in the category (when given) whose lowercase name or path
    /// holds the lowercase query (when not empty), in order.
    pub fn filter_items(items: &Vec<CleanupItem>, category: Option<CleanupCategory>, query: &str) -> (r: Vec<CleanupItem>)
        ensures
            r@ == filtered(items@, category, query@),
    {
        let q = vec_of(query);
        let ql = vec_of(to_lowercase(query).as_str());
        let mut out: Vec<CleanupItem> = Vec::new();
        let mut i: usize = 0;
        while i < items.len()
            invariant
                i <= items@.len(),
                q@ == query@,
                ql@ == lowercase(query@),
                out@ == filtered(items@.take(i as int), category, query@),
            decreases items.len() - i,
        {
            let item = &items[i];
            let cat_ok = match category {
                Some(c) => item.category == c,
                None => true,
            };
            let query_ok = q.len() == 0 || vec_contains(&lower_vec(&vec_of(item.name.as_str())), &ql)
                || vec_contains(&lower_vec(&vec_of(item.path.as_str())), &ql);
            proof {
                assert(items@.take(i + 1).drop_last() =~= items@.take(i as int));
                assert(items@.take(i + 1).last() == items@[i as int]);
            }
            if cat_ok && query_ok {
                out.push(item.clone());
            }
            i += 1;
        }
        assert(items@.take(i as int) =~= items@);
        out
    }
}

/// Toggling the same item twice restores the selection.
pub proof fn lemma_toggle_twice(s: Seq<CleanupItem>, id: Seq<char>)
    ensures
        toggled(toggled(s, id), id) == s,
{
    lemma_first_with_id(s, id);
    let k = first_with_id(s, id);
    if k < s.len() {
        let t = toggled(s, id);
        assert forall|j: int| 0 <= j < k implies t[j].id@ != id by {
            assert(t[j] == s[j]);
        }
        lemma_first_with_id_is(t, id, k);
        assert(toggled(t, id) =~= s);
    }
}

/// "Select all" leaves only safe items newly selected and keeps the
/// choice on the others; "deselect all" leaves nothing selected; doing
/// either twice is the same as once.
pub proof fn lemma_select_all(item: CleanupItem, selected: bool)
    ensures
        after_select_all(after_select_all(item, selected), selected) == after_select_all(
            item,
            selected,
        ),
        !selected ==> !after_select_all(item, selected).selected,
        selected && item.safety_level == RiskLevel::Safe ==> after_select_all(
            item,
            selected,
        ).selected,
        item.safety_level != RiskLevel::Safe && selected ==> after_select_all(item, selected)
            == item,
{
}

/// After "deselect all" nothing is selected: the summary counts no item
/// and no byte.
pub proof fn lemma_deselect_all_summary(s: Seq<CleanupItem>)
    requires
        forall|i: int| 0 <= i < s.len() ==> !(#[trigger] s[i]).selected,
    ensures
        selected_count(s) == 0,
        selected_bytes(s) == 0,
    decreases s.len(),
{
    if s.len() > 0 {
        lemma_deselect_all_summary(s.drop_last());
    }
}

pub proof fn lemma_first_with_id_is(s: Seq<CleanupItem>, id: Seq<char>, i: int)
    requires
        0 <= i <= s.len(),
        forall|k: int| 0 <= k < i ==> s[k].id@ != id,
        i < s.len() ==> s[i].id@ == id,
    ensures
        first_with_id(s, id) == i,
    decreases i,
{
    if i > 0 {
        assert forall|k: int| 0 <= k < i - 1 implies s.drop_first()[k].id@ != id by {
            assert(s.drop_first()[k] == s[k + 1]);
        }
        lemma_first_with_id_is(s.drop_first(), id, i - 1);
    }
}

proof fn lemma_selected_bytes_prefix(s: Seq<CleanupItem>, n: int)
    requires
        0 <= n <= s.len(),
    ensures
        selected_bytes(s.take(n)) <= selected_bytes(s),
    decreases s.len(),
{
    if n < s.len() {
        assert(s.drop_last().take(n) =~= s.take(n));
        lemma_selected_bytes_prefix(s.drop_last(), n);
    } else {
        assert(s.take(n) =~= s);
    }
}

} // verus!
