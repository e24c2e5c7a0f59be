//! Turning measured rule locations into found items, and size rendering.

use vstd::prelude::*;
use crate::cleanup::models::{CleanupItem, CleanupRule, ProgressView, RiskLevel, ScanPhase, ScanProgress, progress_views};
use crate::numfmt::{decimal, decimal_of, f64_of_u64, f64_shift, f64_value_of, fixed, fixed_of, p2};
use crate::sort::{KeyOrder, stable_sort, stable_sort_vec};
use crate::split::append_str;
use crate::text::string_from_chars;
use crate::system::os_info::size_text;

verus! {

/// Scans rule locations.
pub struct Scanner;

/// What measuring one rule's location gave.
#[derive(Debug, Clone, Copy, PartialEq, Eq, Structural)]
pub enum RuleOutcome {
    /// The scan was cancelled before this rule.
    Cancelled,
    /// The rule's location does not exist.
    Missing,
    /// The total size of the files under the location.
    Measured(u64),
}

/// A byte count in the largest binary unit it reaches, up to GB; the count
/// is converted to `f64` and printed with 2, 1 and 0 decimals for GB, MB
/// and KB, and exactly for plain bytes.
pub open spec fn cleanup_size_text(bytes: nat) -> Seq<char> {
    let v = f64_of_u64(bytes);
    if bytes >= p2(30) {
        fixed(v, p2(30), 2) + " GB"@
    } else if bytes >= p2(20) {
        fixed(v, p2(20), 1) + " MB"@
    } else if bytes >= p2(10) {
        fixed(v, p2(10), 0) + " KB"@
    } else {
        decimal(bytes) + " B"@
    }
}

/// A rule is scanned unless it belongs to the full scan only and this is a
/// fast scan.
pub open spec fn rule_scanned(rule: CleanupRule, full: bool) -> bool {
    !rule.is_deep_scan || full
}

/// Risk order: safe items first, then warnings, then dangerous ones.
pub open spec fn risk_rank(r: RiskLevel) -> int {
    match r {
        RiskLevel::Safe => 0,
        RiskLevel::Warning => 1,
        RiskLevel::Dangerous => 2,
    }
}

/// The item is the one found for the `idx`-th rule with `size` bytes: see
/// `item_of`, with the id `"{rule id}_{idx}"` and the size rendered by
/// `cleanup_size_text`.
pub open spec fn is_item_of(item: CleanupItem, rule: CleanupRule, idx: nat, size: u64) -> bool {
    &&& item.id@ == rule.id@ + "_"@ + decimal(idx)
    &&& item.rule_id@ == rule.id@
    &&& item.name@ == rule.name_key@
    &&& item.description@ == rule.description_key@
    &&& item.path@ == rule.base_path@
    &&& item.size_bytes == size
    &&& item.size_formatted@ == cleanup_size_text(size as nat)
    &&& item.safety_level == rule.safety_level
    &&& item.category == rule.category
    &&& item.selected == (rule.safety_level == RiskLevel::Safe)
}

/// The rules, from the `k`-th on, that yield an item, with their indices
/// and sizes, in order: scanning stops at the first cancelled rule; rules
/// not scanned, missing locations and empty ones yield nothing.
pub open spec fn found_from(rules: Seq<CleanupRule>, full: bool, outcomes: Seq<RuleOutcome>, k: int) -> Seq<(nat, u64)>
    decreases rules.len() - k,
{
    if k < 0 || k >= rules.len() || k >= outcomes.len() {
        seq![]
    } else if outcomes[k] is Cancelled {
        seq![]
    } else if !rule_scanned(rules[k], full) {
        found_from(rules, full, outcomes, k + 1)
    } else {
        match outcomes[k] {
            RuleOutcome::Measured(size) => if size > 0 {
                seq![(k as nat, size)] + found_from(rules, full, outcomes, k + 1)
            } else {
                found_from(rules, full, outcomes, k + 1)
            },
            _ => found_from(rules, full, outcomes, k + 1),
        }
    }
}

/// The total size of found rules.
pub open spec fn found_bytes(s: Seq<(nat, u64)>) -> nat
    decreases s.len(),
{
    if s.len() == 0 {
        0
    } else {
        s[0].1 as nat + found_bytes(s.drop_first())
    }
}

/// A progress report as values.
pub open spec fn report(phase: ScanPhase, item: Seq<char>, count: nat, bytes: nat, done: nat, total: nat) -> ProgressView {
    ProgressView { phase, current_item: item, items_found: count, bytes_found: bytes, done, total }
}

/// The progress a scan reports from the `k`-th rule on, having found
/// `count` items of `bytes` bytes: a `Scanning` report for each scanned rule
/// whose location exists, before it is measured; a `Cancelled` report at the
/// first cancelled rule, which ends the scan; and last a `Completed` report
/// with all that was found.
pub open spec fn scan_events_from(
    rules: Seq<CleanupRule>,
    full: bool,
    outcomes: Seq<RuleOutcome>,
    k: int,
    count: nat,
    bytes: nat,
) -> Seq<ProgressView>
    decreases rules.len() - k,
{
    let n = rules.len();
    if k < 0 || k >= rules.len() || k >= outcomes.len() {
        seq![report(ScanPhase::Completed, seq![], count, bytes, n, n)]
    } else if outcomes[k] is Cancelled {
        seq![
            report(ScanPhase::Cancelled, seq![], count, bytes, k as nat, n),
            report(ScanPhase::Completed, seq![], count, bytes, n, n),
        ]
    } else if !rule_scanned(rules[k], full) {
        scan_events_from(rules, full, outcomes, k + 1, count, bytes)
    } else {
        match outcomes[k] {
            RuleOutcome::Measured(size) => seq![
                report(ScanPhase::Scanning, rules[k].base_path@, count, bytes, k as nat, n),
            ] + scan_events_from(
                rules,
                full,
                outcomes,
                k + 1,
                if size > 0 {
                    count + 1
                } else {
                    count
                },
                (bytes + size) as nat,
            ),
            _ => scan_events_from(rules, full, outcomes, k + 1, count, bytes),
        }
    }
}

/// The last report of a scan is `Completed`, with the number and total size
/// of the items it found.
pub proof fn lemma_scan_ends_completed(
    rules: Seq<CleanupRule>,
    full: bool,
    outcomes: Seq<RuleOutcome>,
    k: int,
    count: nat,
    bytes: nat,
)
    requires
        0 <= k,
    ensures
        scan_events_from(rules, full, outcomes, k, count, bytes).len() > 0,
        scan_events_from(rules, full, outcomes, k, count, bytes).last() == report(
            ScanPhase::Completed,
            seq![],
            count + found_from(rules, full, outcomes, k).len(),
            bytes + found_bytes(found_from(rules, full, outcomes, k)),
            rules.len(),
            rules.len(),
        ),
    decreases rules.len() - k,
{
    if k >= rules.len() || k >= outcomes.len() {
    } else if outcomes[k] is Cancelled {
    } else if !rule_scanned(rules[k], full) {
        lemma_scan_ends_completed(rules, full, outcomes, k + 1, count, bytes);
    } else {
        match outcomes[k] {
            RuleOutcome::Measured(size) => {
                let c2 = if size > 0 {
                    count + 1
                } else {
                    count
                };
                lemma_scan_ends_completed(rules, full, outcomes, k + 1, c2, (bytes + size) as nat);
                let rest = found_from(rules, full, outcomes, k + 1);
                if size > 0 {
                    assert((seq![(k as nat, size)] + rest).drop_first() =~= rest);
                }
            },
            _ => {
                lemma_scan_ends_completed(rules, full, outcomes, k + 1, count, bytes);
            },
        }
    }
}

/// Items ordered by risk (safe first), larger first within a risk level.
impl KeyOrder for CleanupItem {
    open spec fn key_le(self, other: Self) -> bool {
        risk_rank(self.safety_level) < risk_rank(other.safety_level) || (risk_rank(
            self.safety_level,
        ) == risk_rank(other.safety_level) && self.size_bytes >= other.size_bytes)
    }

    proof fn lemma_key_total(a: Self, b: Self) {
    }

    proof fn lemma_key_trans(a: Self, b: Self, c: Self) {
    }

    fn le(&self, other: &Self) -> (r: bool) {
        let ra: u8 = match self.safety_level {
            RiskLevel::Safe => 0,
            RiskLevel::Warning => 1,
            RiskLevel::Dangerous => 2,
        };
        let rb: u8 = match other.safety_level {
            RiskLevel::Safe => 0,
            RiskLevel::Warning => 1,
            RiskLevel::Dangerous => 2,
        };
        ra < rb || (ra == rb && self.size_bytes >= other.size_bytes)
    }
}

impl Scanner {
    /// Renders a byte count, e.g. `2048` as `"2 KB"`.
    pub fn format_bytes(bytes: u64) -> (r: String)
        ensures
            r@ == cleanup_size_text(bytes as nat),
    {
        let v = f64_value_of(bytes);
        proof {
            crate::system::os_info::lemma_f64_value_bound(bytes as nat);
        }
        let gb: u64 = 0x4000_0000;
        let mb: u64 = 0x10_0000;
        let kb: u64 = 0x400;
        assert(p2(30) == gb && p2(20) == mb && p2(10) == kb) by {
            reveal_with_fuel(p2, 31);
        }
        let mut out: Vec<char>;
        if bytes >= gb {
            out = fixed_of(v, gb as u128, 2);
            append_str(&mut out, " GB");
        } else if bytes >= mb {
            out = fixed_of(v, mb as u128, 1);
            append_str(&mut out, " MB");
        } else if bytes >= kb {
            out = fixed_of(v, kb as u128, 0);
            append_str(&mut out, " KB");
        } else {
            out = decimal_of(bytes as u128);
            append_str(&mut out, " B");
        }
        string_from_chars(&out)
    }

    /// Whether a rule is scanned in this kind of scan.
    pub fn should_scan(rule: &CleanupRule, is_full_scan: bool) -> (r: bool)
        ensures
            r == rule_scanned(*rule, is_full_scan),
    {
        !rule.is_deep_scan || is_full_scan
    }

    /// The item found for the `idx`-th rule, whose location holds
    /// `size_bytes` bytes.
    pub fn make_item(rule: &CleanupRule, idx: usize, size_bytes: u64) -> (r: CleanupItem)
        ensures
            is_item_of(r, *rule, idx as nat, size_bytes),
    {
        let mut id = crate::text::vec_of(rule.id.as_str());
        append_str(&mut id, "_");
        let digits = decimal_of(idx as u128);
        crate::split::push_all(&mut id, &digits);
        CleanupItem {
            id: string_from_chars(&id),
            rule_id: rule.id.clone(),
            name: rule.name_key.clone(),
            description: rule.description_key.clone(),
            path: rule.base_path.clone(),
            size_bytes,
            size_formatted: Self::format_bytes(size_bytes),
            safety_level: rule.safety_level,
            category: rule.category,
            selected: match rule.safety_level {
                RiskLevel::Safe => true,
                _ => false,
            },
        }
    }

    /// Orders found items: safe ones first, then warnings, then dangerous
    /// ones, each group from the largest down; items alike in both keep
    /// their order.
    pub fn sort_items(items: Vec<CleanupItem>) -> (r: Vec<CleanupItem>)
        ensures
            r@ == stable_sort(items@),
            r@.to_multiset() == items@.to_multiset(),
            forall|i: int, j: int| 0 <= i < j < r@.len() ==> r@[i].key_le(r@[j]),
    {
        stable_sort_vec(items)
    }

    /// The progress a scan reports, given what measuring each rule's
    /// location gave: see `scan_events_from`. The last report is `Completed`,
    /// with as many items as `run_scan` finds and their total size. The
    /// sizes found must add up within `u64`.
    pub fn scan_progress(rules: &Vec<CleanupRule>, is_full_scan: bool, outcomes: &Vec<RuleOutcome>) -> (r: Vec<ScanProgress>)
        requires
            outcomes@.len() == rules@.len(),
            found_bytes(found_from(rules@, is_full_scan, outcomes@, 0)) <= u64::MAX,
        ensures
            progress_views(r@) == scan_events_from(rules@, is_full_scan, outcomes@, 0, 0, 0),
            r@.len() > 0,
            progress_views(r@).last() == report(
                ScanPhase::Completed,
                seq![],
                found_from(rules@, is_full_scan, outcomes@, 0).len(),
                found_bytes(found_from(rules@, is_full_scan, outcomes@, 0)),
                rules@.len(),
                rules@.len(),
            ),
    {
        proof {
            lemma_scan_ends_completed(rules@, is_full_scan, outcomes@, 0, 0, 0);
        }
        let ghost all = scan_events_from(rules@, is_full_scan, outcomes@, 0, 0, 0);
        let ghost found = found_from(rules@, is_full_scan, outcomes@, 0);
        let n = rules.len();
        let mut out: Vec<ScanProgress> = Vec::new();
        let mut count: usize = 0;
        let mut bytes: u64 = 0;
        let mut k: usize = 0;
        assert(progress_views(out@) + all =~= all);
        while k < n
            invariant
                k <= n,
                n == rules@.len(),
                all.len() > 0,
                all.last() == report(
                    ScanPhase::Completed,
                    seq![],
                    found.len(),
                    found_bytes(found),
                    rules@.len(),
                    rules@.len(),
                ),
                outcomes@.len() == rules@.len(),
                count <= k,
                all == scan_events_from(rules@, is_full_scan, outcomes@, 0, 0, 0),
                found == found_from(rules@, is_full_scan, outcomes@, 0),
                found_bytes(found) <= u64::MAX,
                progress_views(out@) + scan_events_from(rules@, is_full_scan, outcomes@, k as int, count as nat, bytes as nat) == all,
                bytes + found_bytes(found_from(rules@, is_full_scan, outcomes@, k as int)) == found_bytes(found),
            decreases n - k,
        {
            let ghost before = progress_views(out@);
            let ghost rest = found_from(rules@, is_full_scan, outcomes@, k as int);
            match outcomes[k] {
                RuleOutcome::Cancelled => {
                    out.push(ScanProgress {
                        phase: ScanPhase::Cancelled,
                        current_item: String::new(),
                        items_found: count,
                        bytes_found: bytes,
                        done: k,
                        total: n,
                    });
                    out.push(ScanProgress {
                        phase: ScanPhase::Completed,
                        current_item: String::new(),
                        items_found: count,
                        bytes_found: bytes,
                        done: n,
                        total: n,
                    });
                    proof {
                        reveal_strlit("");
                        assert(progress_views(out@) =~= before + scan_events_from(
                            rules@,
                            is_full_scan,
                            outcomes@,
                            k as int,
                            count as nat,
                            bytes as nat,
                        ));
                    }
                    return out;
                },
                RuleOutcome::Missing => {},
                RuleOutcome::Measured(size) => {
                    if Self::should_scan(&rules[k], is_full_scan) {
                        out.push(ScanProgress {
                            phase: ScanPhase::Scanning,
                            current_item: rules[k].base_path.clone(),
                            items_found: count,
                            bytes_found: bytes,
                            done: k,
                            total: n,
                        });
                        proof {
                            if size > 0 {
                                assert(rest == seq![(k as nat, size)] + found_from(rules@, is_full_scan, outcomes@, k + 1));
                                assert((seq![(k as nat, size)] + found_from(rules@, is_full_scan, outcomes@, k + 1)).drop_first()
                                    =~= found_from(rules@, is_full_scan, outcomes@, k + 1));
                            }
                            assert(progress_views(out@) =~= before + seq![
                                report(ScanPhase::Scanning, rules@[k as int].base_path@, count as nat, bytes as nat, k as nat, n as nat),
                            ]);
                        }
                        bytes = bytes + size;
                        if size > 0 {
                            count = count + 1;
                        }
                    }
                },
            }
            k += 1;
        }
        let ghost before = progress_views(out@);
        out.push(ScanProgress {
            phase: ScanPhase::Completed,
            current_item: String::new(),
            items_found: count,
            bytes_found: bytes,
            done: n,
            total: n,
        });
        proof {
            reveal_strlit("");
            assert(progress_views(out@) =~= before + seq![
                report(ScanPhase::Completed, seq![], count as nat, bytes as nat, n as nat, n as nat),
            ]);
            assert(progress_views(out@) =~= all);
        }
        out
    }

    /// The items a scan finds, given what measuring each rule's location
    /// gave (`outcomes[i]` for `rules[i]`; rules that are not scanned may
    /// have any outcome): one item per rule in `found_from`, then ordered by
    /// `sort_items`.
    pub fn run_scan(rules: &Vec<CleanupRule>, is_full_scan: bool, outcomes: &Vec<RuleOutcome>) -> (r: Vec<CleanupItem>)
        requires
            outcomes@.len() == rules@.len(),
        ensures
            exists|found: Seq<CleanupItem>| {
                &&& found.len() == found_from(rules@, is_full_scan, outcomes@, 0).len()
                &&& forall|i: int| 0 <= i < found.len() ==> {
                    let (k, size) = #[trigger] found_from(rules@, is_full_scan, outcomes@, 0)[i];
                    is_item_of(found[i], rules@[k as int], k, size)
                }
                &&& r@ == stable_sort(found)
            },
            r@.len() == found_from(rules@, is_full_scan, outcomes@, 0).len(),
    {
        let mut items: Vec<CleanupItem> = Vec::new();
        let ghost all = found_from(rules@, is_full_scan, outcomes@, 0);
        let mut k: usize = 0;
        while k < rules.len()
            invariant
                k <= rules@.len(),
                outcomes@.len() == rules@.len(),
                all == found_from(rules@, is_full_scan, outcomes@, 0),
                all == found_from(rules@, is_full_scan, outcomes@, 0).take(items@.len() as int)
                    + found_from(rules@, is_full_scan, outcomes@, k as int),
                items@.len() <= all.len(),
                forall|i: int| 0 <= i < items@.len() ==> {
                    let (kk, size) = #[trigger] all[i];
                    &&& kk < rules@.len()
                    &&& is_item_of(items@[i], rules@[kk as int], kk, size)
                },
            ensures
                items@.len() == all.len(),
                forall|i: int| 0 <= i < items@.len() ==> {
                    let (kk, size) = #[trigger] all[i];
                    &&& kk < rules@.len()
                    &&& is_item_of(items@[i], rules@[kk as int], kk, size)
                },
            decreases rules.len() - k,
        {
            let ghost n = items@.len();
            let ghost rest = found_from(rules@, is_full_scan, outcomes@, k as int);
            match outcomes[k] {
                RuleOutcome::Cancelled => {
                    assert(rest =~= Seq::<(nat, u64)>::empty());
                    assert(all.take(n as int) =~= all);
                    break;
                },
                RuleOutcome::Missing => {},
                RuleOutcome::Measured(size) => {
                    if Self::should_scan(&rules[k], is_full_scan) && size > 0 {
                        let item = Self::make_item(&rules[k], k, size);
                        items.push(item);
                        assert(rest[0] == (k as nat, size));
                        assert(all[n as int] == (k as nat, size));
                        assert(all.take(n + 1int) + found_from(rules@, is_full_scan, outcomes@, k + 1)
                            =~= all);
                    }
                },
            }
            k += 1;
        }
        let ghost found = items@;
        let r = Self::sort_items(items);
        assert(found.len() == all.len());
        proof {
            crate::sort::lemma_stable_sort(found);
        }
        r
    }
}

/// Below one tebibyte, the cleanup page and the dashboard render a byte
/// count alike (at one tebibyte and above the dashboard switches to TB,
/// the cleanup page stays in GB).
pub proof fn lemma_size_texts_agree(bytes: nat)
    requires
        bytes < p2(40),
    ensures
        cleanup_size_text(bytes) == size_text(bytes),
{
    assert(p2(40) == 0x100_0000_0000 && p2(53) == 0x20_0000_0000_0000) by {
        reveal_with_fuel(p2, 54);
    }
    assert(f64_shift(bytes) == 0);
    assert(p2(0) == 1);
    assert(bytes / 1 == bytes && bytes % 1 == 0) by (nonlinear_arith);
    assert(f64_of_u64(bytes) == bytes);
}

/// Sizes in whole units read as that number of units on the cleanup page:
/// fewer than 1024 bytes in B, then whole KB with no decimals, whole MB
/// with one and whole GB with two, GB being the largest unit (up to the
/// exact range of `f64`, 8388607 GB).
pub proof fn lemma_cleanup_size_whole_units(n: nat)
    ensures
        n < 1024 ==> cleanup_size_text(n) == decimal(n) + " B"@,
        1 <= n < 1024 ==> cleanup_size_text(n * 1024) == decimal(n) + " KB"@,
        1 <= n < 1024 ==> cleanup_size_text(n * 1048576) == decimal(n) + ".0 MB"@,
        1 <= n < 8388608 ==> cleanup_size_text(n * 1073741824) == decimal(n) + ".00 GB"@,
{
    reveal_strlit(".0 MB");
    reveal_strlit(" MB");
    reveal_strlit(".00 GB");
    reveal_strlit(" GB");
    assert(p2(10) == 1024 && p2(20) == 1048576 && p2(30) == 1073741824) by {
        reveal_with_fuel(p2, 31);
    }
    if 1 <= n < 1024 {
        assert(1024 <= n * 1024 < 1048576);
        assert(1048576 <= n * 1048576 < 1073741824);
        crate::numfmt::lemma_f64_exact(n * 1024);
        crate::numfmt::lemma_f64_exact(n * 1048576);
        crate::numfmt::lemma_fixed_whole(n, 1024, 0);
        crate::numfmt::lemma_fixed_whole(n, 1048576, 1);
        assert(decimal(n) + seq!['.', '0'] + " MB"@ =~= decimal(n) + ".0 MB"@);
    }
    if 1 <= n < 8388608 {
        assert(1073741824 <= n * 1073741824 < 0x20_0000_0000_0000);
        crate::numfmt::lemma_f64_exact(n * 1073741824);
        crate::numfmt::lemma_fixed_whole(n, 1073741824, 2);
        assert(decimal(n) + seq!['.', '0', '0'] + " GB"@ =~= decimal(n) + ".00 GB"@);
    }
}

} // verus!
