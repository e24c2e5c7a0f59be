//! Which found items are deleted, and the summary of a cleanup run.

use vstd::prelude::*;
use crate::cleanup::models::{CleanupItem, ProgressView, RiskLevel, ScanPhase, ScanProgress, progress_views};
use crate::cleanup::scanner::report;
use crate::split::{append_str, push_all};
use crate::text::{string_from_chars, vec_of};

verus! {

/// What a cleanup run did.
#[derive(Debug)]
pub struct CleanupSummary {
    pub items_cleaned: usize,
    pub bytes_freed: u64,
    pub errors: Vec<String>,
}

impl Default for CleanupSummary {
    fn default() -> (r: Self)
        ensures
            r.items_cleaned == 0,
            r.bytes_freed == 0,
            r.errors@.len() == 0,
    {
        CleanupSummary { items_cleaned: 0, bytes_freed: 0, errors: Vec::new() }
    }
}

/// Deletes selected items.
pub struct Cleaner;

/// What deleting one item's data gave.
#[derive(Debug)]
pub enum CleanOutcome {
    /// The run was cancelled before this item.
    Cancelled,
    /// The data was removed, freeing this many bytes.
    Cleaned(u64),
    /// Removing failed with this message.
    Failed(String),
}

/// An item is deleted only when it is selected and not dangerous.
pub open spec fn should_clean(item: CleanupItem) -> bool {
    item.selected && item.safety_level != RiskLevel::Dangerous
}

/// The summary of a run, as values.
pub struct SummaryView {
    pub items_cleaned: nat,
    pub bytes_freed: nat,
    pub errors: Seq<Seq<char>>,
}

/// The summary of a run over the items from the `k`-th on, added to `acc`:
/// the run stops at the first cancelled item; items that are not to be
/// deleted are passed over; a removal counts its item and bytes, a failure
/// records `"path: message"`.
pub open spec fn run_summary(items: Seq<CleanupItem>, outcomes: Seq<CleanOutcome>, k: int, acc: SummaryView) -> SummaryView
    decreases items.len() - k,
{
    if k < 0 || k >= items.len() || k >= outcomes.len() {
        acc
    } else if outcomes[k] is Cancelled {
        acc
    } else if !should_clean(items[k]) {
        run_summary(items, outcomes, k + 1, acc)
    } else {
        match outcomes[k] {
            CleanOutcome::Cleaned(n) => run_summary(
                items,
                outcomes,
                k + 1,
                SummaryView {
                    items_cleaned: acc.items_cleaned + 1,
                    bytes_freed: (acc.bytes_freed + n) as nat,
                    errors: acc.errors,
                },
            ),
            CleanOutcome::Failed(msg) => run_summary(
                items,
                outcomes,
                k + 1,
                SummaryView { errors: acc.errors.push(items[k].path@ + ": "@ + msg@), ..acc },
            ),
            CleanOutcome::Cancelled => acc,
        }
    }
}

/// The progress a cleanup reports from the `k`-th item on, with `acc` done
/// so far: a `Cleaning` report before each item that is to be deleted; a
/// `Cancelled` report at the first cancelled item, which ends the run; and
/// last a `Completed` report with the items cleaned and the bytes freed.
pub open spec fn clean_events_from(items: Seq<CleanupItem>, outcomes: Seq<CleanOutcome>, k: int, acc: SummaryView) -> Seq<ProgressView>
    decreases items.len() - k,
{
    let n = items.len();
    if k < 0 || k >= items.len() || k >= outcomes.len() {
        seq![report(ScanPhase::Completed, seq![], acc.items_cleaned, acc.bytes_freed, n, n)]
    } else if outcomes[k] is Cancelled {
        seq![
            report(ScanPhase::Cancelled, seq![], acc.items_cleaned, acc.bytes_freed, k as nat, n),
            report(ScanPhase::Completed, seq![], acc.items_cleaned, acc.bytes_freed, n, n),
        ]
    } else if !should_clean(items[k]) {
        clean_events_from(items, outcomes, k + 1, acc)
    } else {
        seq![report(ScanPhase::Cleaning, items[k].path@, acc.items_cleaned, acc.bytes_freed, k as nat, n)]
            + match outcomes[k] {
            CleanOutcome::Cleaned(b) => clean_events_from(
                items,
                outcomes,
                k + 1,
                SummaryView {
                    items_cleaned: acc.items_cleaned + 1,
                    bytes_freed: (acc.bytes_freed + b) as nat,
                    errors: acc.errors,
                },
            ),
            CleanOutcome::Failed(msg) => clean_events_from(
                items,
                outcomes,
                k + 1,
                SummaryView { errors: acc.errors.push(items[k].path@ + ": "@ + msg@), ..acc },
            ),
            CleanOutcome::Cancelled => seq![],
        }
    }
}

/// The last report of a cleanup is `Completed`, with the items cleaned and
/// the bytes freed of the run's summary.
pub proof fn lemma_clean_ends_completed(items: Seq<CleanupItem>, outcomes: Seq<CleanOutcome>, k: int, acc: SummaryView)
    requires
        0 <= k,
    ensures
        clean_events_from(items, outcomes, k, acc).len() > 0,
        clean_events_from(items, outcomes, k, acc).last() == report(
            ScanPhase::Completed,
            seq![],
            run_summary(items, outcomes, k, acc).items_cleaned,
            run_summary(items, outcomes, k, acc).bytes_freed,
            items.len(),
            items.len(),
        ),
    decreases items.len() - k,
{
    if k >= items.len() || k >= outcomes.len() || outcomes[k] is Cancelled {
    } else if !should_clean(items[k]) {
        lemma_clean_ends_completed(items, outcomes, k + 1, acc);
    } else {
        match outcomes[k] {
            CleanOutcome::Cleaned(b) => {
                lemma_clean_ends_completed(
                    items,
                    outcomes,
                    k + 1,
                    SummaryView {
                        items_cleaned: acc.items_cleaned + 1,
                        bytes_freed: (acc.bytes_freed + b) as nat,
                        errors: acc.errors,
                    },
                );
            },
            CleanOutcome::Failed(msg) => {
                lemma_clean_ends_completed(
                    items,
                    outcomes,
                    k + 1,
                    SummaryView { errors: acc.errors.push(items[k].path@ + ": "@ + msg@), ..acc },
                );
            },
            CleanOutcome::Cancelled => {},
        }
    }
}

/// The indices of the items to delete, in order.
pub open spec fn clean_plan(items: Seq<CleanupItem>) -> Seq<int>
    decreases items.len(),
{
    if items.len() == 0 {
        seq![]
    } else if should_clean(items.last()) {
        clean_plan(items.drop_last()).push(items.len() - 1)
    } else {
        clean_plan(items.drop_last())
    }
}

/// The summary held in a `CleanupSummary`.
pub open spec fn summary_view(s: CleanupSummary) -> SummaryView {
    SummaryView {
        items_cleaned: s.items_cleaned as nat,
        bytes_freed: s.bytes_freed as nat,
        errors: Seq::new(s.errors@.len(), |i: int| s.errors@[i]@),
    }
}

impl Cleaner {
    /// Whether the item is to be deleted.
    pub fn should_clean(item: &CleanupItem) -> (r: bool)
        ensures
            r == should_clean(*item),
    {
        item.selected && match item.safety_level {
            RiskLevel::Dangerous => false,
            _ => true,
        }
    }

    /// The indices of the items to delete: the selected items that are not
    /// dangerous, in order. A dangerous or unselected item is never among
    /// them.
    pub fn plan_clean(items: &Vec<CleanupItem>) -> (r: Vec<usize>)
        ensures
            Seq::new(r@.len(), |i: int| r@[i] as int) == clean_plan(items@),
            forall|i: int| 0 <= i < r@.len() ==> #[trigger] r@[i] < items@.len() && should_clean(
                items@[r@[i] as int],
            ),
    {
        let mut out: Vec<usize> = Vec::new();
        let mut i: usize = 0;
        while i < items.len()
            invariant
                i <= items@.len(),
                Seq::new(out@.len(), |k: int| out@[k] as int) == clean_plan(items@.take(i as int)),
                forall|k: int| 0 <= k < out@.len() ==> #[trigger] out@[k] < i && should_clean(
                    items@[out@[k] as int],
                ),
            decreases items.len() - i,
        {
            let ghost before = Seq::new(out@.len(), |k: int| out@[k] as int);
            assert(items@.take(i + 1).drop_last() =~= items@.take(i as int));
            if Self::should_clean(&items[i]) {
                out.push(i);
                assert(Seq::new(out@.len(), |k: int| out@[k] as int) =~= before.push(i as int));
            }
            i += 1;
        }
        assert(items@.take(i as int) =~= items@);
        out
    }

    /// The progress a cleanup reports, given what deleting each item gave:
    /// see `clean_events_from`. The last report is `Completed`, with the
    /// items cleaned and the bytes freed that `run_clean` sums up. The freed
    /// bytes must add up within `u64`.
    pub fn clean_progress(items: &Vec<CleanupItem>, outcomes: &Vec<CleanOutcome>) -> (r: Vec<ScanProgress>)
        requires
            outcomes@.len() == items@.len(),
            run_summary(
                items@,
                outcomes@,
                0,
                SummaryView { items_cleaned: 0, bytes_freed: 0, errors: seq![] },
            ).bytes_freed <= u64::MAX,
        ensures
            progress_views(r@) == clean_events_from(
                items@,
                outcomes@,
                0,
                SummaryView { items_cleaned: 0, bytes_freed: 0, errors: seq![] },
            ),
            r@.len() > 0,
            ({
                let s = run_summary(
                    items@,
                    outcomes@,
                    0,
                    SummaryView { items_cleaned: 0, bytes_freed: 0, errors: seq![] },
                );
                progress_views(r@).last() == report(
                    ScanPhase::Completed,
                    seq![],
                    s.items_cleaned,
                    s.bytes_freed,
                    items@.len(),
                    items@.len(),
                )
            }),
    {
        let ghost start = SummaryView { items_cleaned: 0, bytes_freed: 0, errors: seq![] };
        proof {
            lemma_clean_ends_completed(items@, outcomes@, 0, start);
        }
        let ghost all = clean_events_from(items@, outcomes@, 0, start);
        let ghost fin = run_summary(items@, outcomes@, 0, start);
        let n = items.len();
        let mut out: Vec<ScanProgress> = Vec::new();
        let mut cleaned: usize = 0;
        let mut freed: u64 = 0;
        let ghost mut errs: Seq<Seq<char>> = seq![];
        let mut k: usize = 0;
        assert(progress_views(out@) + all =~= all);
        while k < n
            invariant
                k <= n,
                n == items@.len(),
                outcomes@.len() == items@.len(),
                cleaned <= k,
                start == (SummaryView { items_cleaned: 0, bytes_freed: 0, errors: seq![] }),
                all == clean_events_from(items@, outcomes@, 0, start),
                fin == run_summary(items@, outcomes@, 0, start),
                fin.bytes_freed <= u64::MAX,
                all.len() > 0,
                all.last() == report(ScanPhase::Completed, seq![], fin.items_cleaned, fin.bytes_freed, n as nat, n as nat),
                progress_views(out@) + clean_events_from(
                    items@,
                    outcomes@,
                    k as int,
                    SummaryView { items_cleaned: cleaned as nat, bytes_freed: freed as nat, errors: errs },
                ) == all,
                run_summary(
                    items@,
                    outcomes@,
                    k as int,
                    SummaryView { items_cleaned: cleaned as nat, bytes_freed: freed as nat, errors: errs },
                ) == fin,
            decreases n - k,
        {
            let ghost before = progress_views(out@);
            let ghost acc = SummaryView { items_cleaned: cleaned as nat, bytes_freed: freed as nat, errors: errs };
            if let CleanOutcome::Cancelled = &outcomes[k] {
                out.push(ScanProgress {
                    phase: ScanPhase::Cancelled,
                    current_item: String::new(),
                    items_found: cleaned,
                    bytes_found: freed,
                    done: k,
                    total: n,
                });
                out.push(ScanProgress {
                    phase: ScanPhase::Completed,
                    current_item: String::new(),
                    items_found: cleaned,
                    bytes_found: freed,
                    done: n,
                    total: n,
                });
                proof {
                    reveal_strlit("");
                    assert(progress_views(out@) =~= before + clean_events_from(items@, outcomes@, k as int, acc));
                }
                return out;
            }
            if Self::should_clean(&items[k]) {
                out.push(ScanProgress {
                    phase: ScanPhase::Cleaning,
                    current_item: items[k].path.clone(),
                    items_found: cleaned,
                    bytes_found: freed,
                    done: k,
                    total: n,
                });
                proof {
                    assert(progress_views(out@) =~= before + seq![
                        report(ScanPhase::Cleaning, items@[k as int].path@, cleaned as nat, freed as nat, k as nat, n as nat),
                    ]);
                }
                match &outcomes[k] {
                    CleanOutcome::Cleaned(b) => {
                        proof {
                            lemma_summary_grows(
                                items@,
                                outcomes@,
                                k + 1,
                                SummaryView {
                                    items_cleaned: acc.items_cleaned + 1,
                                    bytes_freed: (acc.bytes_freed + *b) as nat,
                                    errors: acc.errors,
                                },
                            );
                        }
                        cleaned = cleaned + 1;
                        freed = freed + *b;
                    },
                    CleanOutcome::Failed(msg) => {
                        proof {
                            errs = errs.push(items@[k as int].path@ + ": "@ + msg@);
                        }
                    },
                    CleanOutcome::Cancelled => {},
                }
            }
            k += 1;
        }
        let ghost before = progress_views(out@);
        out.push(ScanProgress {
            phase: ScanPhase::Completed,
            current_item: String::new(),
            items_found: cleaned,
            bytes_found: freed,
            done: n,
            total: n,
        });
        proof {
            reveal_strlit("");
            assert(progress_views(out@) =~= before + seq![
                report(ScanPhase::Completed, seq![], cleaned as nat, freed as nat, n as nat, n as nat),
            ]);
            assert(progress_views(out@) =~= all);
        }
        out
    }

    /// The summary of a run over the items, given what deleting each one
    /// gave (`outcomes[i]` for `items[i]`; items not to be deleted may have
    /// any outcome). The freed bytes must add up within `u64`.
    pub fn run_clean(items: &Vec<CleanupItem>, outcomes: &Vec<CleanOutcome>) -> (r: CleanupSummary)
        requires
            outcomes@.len() == items@.len(),
            run_summary(
                items@,
                outcomes@,
                0,
                SummaryView { items_cleaned: 0, bytes_freed: 0, errors: seq![] },
            ).bytes_freed <= u64::MAX,
        ensures
            summary_view(r) == run_summary(
                items@,
                outcomes@,
                0,
                SummaryView { items_cleaned: 0, bytes_freed: 0, errors: seq![] },
            ),
    {
        let ghost start = SummaryView { items_cleaned: 0, bytes_freed: 0, errors: seq![] };
        let mut summary = CleanupSummary::default();
        let mut k: usize = 0;
        assert(summary_view(summary).errors =~= start.errors);
        assert(summary_view(summary) == start);
        while k < items.len()
            invariant_except_break
                k <= items@.len(),
                outcomes@.len() == items@.len(),
                run_summary(items@, outcomes@, 0, start) == run_summary(
                    items@,
                    outcomes@,
                    k as int,
                    summary_view(summary),
                ),
                run_summary(items@, outcomes@, 0, start).bytes_freed <= u64::MAX,
                summary.items_cleaned <= k,
            ensures
                summary_view(summary) == run_summary(items@, outcomes@, 0, start),
            decreases items.len() - k,
        {
            let ghost acc = summary_view(summary);
            proof {
                lemma_summary_grows(items@, outcomes@, k as int, acc);
            }
            match &outcomes[k] {
                CleanOutcome::Cancelled => {
                    break;
                },
                CleanOutcome::Cleaned(n) => {
                    if Self::should_clean(&items[k]) {
                        proof {
                            lemma_summary_grows(
                                items@,
                                outcomes@,
                                k + 1,
                                SummaryView {
                                    items_cleaned: acc.items_cleaned + 1,
                                    bytes_freed: (acc.bytes_freed + *n) as nat,
                                    errors: acc.errors,
                                },
                            );
                        }
                        summary.items_cleaned += 1;
                        summary.bytes_freed = summary.bytes_freed + *n;
                        assert(summary_view(summary) == SummaryView {
                            items_cleaned: acc.items_cleaned + 1,
                            bytes_freed: (acc.bytes_freed + *n) as nat,
                            errors: acc.errors,
                        });
                    }
                },
                CleanOutcome::Failed(msg) => {
                    if Self::should_clean(&items[k]) {
                        let mut line = vec_of(items[k].path.as_str());
                        append_str(&mut line, ": ");
                        append_str(&mut line, msg.as_str());
                        let text = string_from_chars(&line);
                        let ghost before = summary_view(summary).errors;
                        summary.errors.push(text);
                        assert(summary_view(summary).errors =~= before.push(
                            items@[k as int].path@ + ": "@ + msg@,
                        ));
                    }
                },
            }
            k += 1;
        }
        summary
    }
}

/// Running on only adds to the summary.
proof fn lemma_summary_grows(items: Seq<CleanupItem>, outcomes: Seq<CleanOutcome>, k: int, acc: SummaryView)
    ensures
        run_summary(items, outcomes, k, acc).bytes_freed >= acc.bytes_freed,
        run_summary(items, outcomes, k, acc).items_cleaned >= acc.items_cleaned,
    decreases items.len() - k,
{
    if 0 <= k < items.len() && k < outcomes.len() && !(outcomes[k] is Cancelled) {
        if !should_clean(items[k]) {
            lemma_summary_grows(items, outcomes, k + 1, acc);
        } else {
            match outcomes[k] {
                CleanOutcome::Cleaned(n) => {
                    lemma_summary_grows(
                        items,
                        outcomes,
                        k + 1,
                        SummaryView {
                            items_cleaned: acc.items_cleaned + 1,
                            bytes_freed: (acc.bytes_freed + n) as nat,
                            errors: acc.errors,
                        },
                    );
                },
                CleanOutcome::Failed(msg) => {
                    lemma_summary_grows(
                        items,
                        outcomes,
                        k + 1,
                        SummaryView { errors: acc.errors.push(items[k].path@ + ": "@ + msg@), ..acc },
                    );
                },
                CleanOutcome::Cancelled => {},
            }
        }
    }
}

} // verus!
