//! Which filesystems the dashboard shows, in which order, and under which
//! label.

use vstd::prelude::*;
use crate::sort::{KeyOrder, insert_pos, stable_sort, stable_sort_vec};
use crate::system::models::{DiskReading, DiskUsage};
use crate::text::{is_ws, starts_with, trim, trim_end, trim_start, trim_vec, vec_eq, vec_of, vec_starts_with, string_from_chars};

verus! {

/// Selects the filesystems to show.
pub struct DiskCollector;

/// Smallest filesystem shown: 500 MiB.
pub const MIN_DISK_BYTES: u64 = 524288000;

/// Larger filesystems come first.
impl KeyOrder for DiskUsage {
    open spec fn key_le(self, other: Self) -> bool {
        self.total_bytes >= other.total_bytes
    }

    proof fn lemma_key_total(a: Self, b: Self) {
    }

    proof fn lemma_key_trans(a: Self, b: Self, c: Self) {
    }

    fn le(&self, other: &Self) -> (r: bool) {
        self.total_bytes >= other.total_bytes
    }
}

/// A filesystem is shown when it has at least 500 MiB and is not a boot or
/// EFI partition.
pub open spec fn disk_kept(d: DiskReading) -> bool {
    &&& d.total_bytes >= MIN_DISK_BYTES
    &&& d.mount_point@ != "/boot"@
    &&& !starts_with(d.mount_point@, "/boot/"@)
    &&& !starts_with(d.mount_point@, "/efi"@)
}

/// The shown record of a reading: used space is total minus available,
/// saturating at zero.
pub open spec fn usage_of(d: DiskReading) -> DiskUsage {
    DiskUsage {
        name: d.name,
        mount_point: d.mount_point,
        file_system: d.file_system,
        total_bytes: d.total_bytes,
        used_bytes: if d.total_bytes >= d.available_bytes {
            (d.total_bytes - d.available_bytes) as u64
        } else {
            0
        },
        available_bytes: d.available_bytes,
    }
}

/// Some earlier record has the same total and used sizes (a subvolume of
/// the same filesystem).
pub open spec fn seen_before(prev: Seq<DiskUsage>, d: DiskUsage) -> bool {
    exists|i: int|
        0 <= i < prev.len() && prev[i].total_bytes == d.total_bytes && prev[i].used_bytes
            == d.used_bytes
}

/// The shown records, in reading order, before sorting.
pub open spec fn chosen_disks(rs: Seq<DiskReading>) -> Seq<DiskUsage>
    decreases rs.len(),
{
    if rs.len() == 0 {
        seq![]
    } else {
        let prev = chosen_disks(rs.drop_last());
        let d = usage_of(rs.last());
        if disk_kept(rs.last()) && !seen_before(prev, d) {
            prev.push(d)
        } else {
            prev
        }
    }
}

/// `s` without trailing `c` characters.
pub open spec fn trim_end_char(s: Seq<char>, c: char) -> Seq<char>
    decreases s.len(),
{
    if s.len() > 0 && s.last() == c {
        trim_end_char(s.drop_last(), c)
    } else {
        s
    }
}

/// The part of `s` after its last `c`, or all of `s` when it has none.
pub open spec fn last_segment(s: Seq<char>, c: char) -> Seq<char>
    decreases s.len(),
{
    if s.len() == 0 {
        s
    } else if s.last() == c {
        seq![]
    } else {
        last_segment(s.drop_last(), c).push(s.last())
    }
}

/// Dashboard label of a mount point: empty for the root (the UI shows its
/// own label there), else the last path component, else the trimmed mount.
pub open spec fn disk_label(mount: Seq<char>) -> Seq<char> {
    let m = trim(mount);
    if m.len() == 0 || m == "/"@ {
        seq![]
    } else {
        let seg = last_segment(trim_end_char(m, '/'), '/');
        if seg.len() > 0 {
            seg
        } else {
            m
        }
    }
}

/// The used space of a reading: total minus available, or zero when more
/// is available than the total.
pub open spec fn used_of(d: DiskReading) -> u64 {
    if d.total_bytes >= d.available_bytes {
        (d.total_bytes - d.available_bytes) as u64
    } else {
        0
    }
}

proof fn lemma_chosen_facts(rs: Seq<DiskReading>)
    ensures
        ({
            let c = chosen_disks(rs);
            &&& forall|i: int|
                0 <= i < rs.len() && disk_kept(#[trigger] rs[i]) ==> exists|j: int|
                    0 <= j < c.len() && c[j].total_bytes == rs[i].total_bytes && c[j].used_bytes
                        == used_of(rs[i])
            &&& forall|j: int|
                #![trigger c[j]]
                0 <= j < c.len() ==> exists|i: int|
                    0 <= i < rs.len() && disk_kept(#[trigger] rs[i]) && c[j] == usage_of(rs[i])
            &&& forall|j1: int, j2: int|
                0 <= j1 < j2 < c.len() ==> !(c[j1].total_bytes == c[j2].total_bytes
                    && c[j1].used_bytes == c[j2].used_bytes)
        }),
    decreases rs.len(),
{
    if rs.len() > 0 {
        let init = rs.drop_last();
        lemma_chosen_facts(init);
        let c0 = chosen_disks(init);
        let c = chosen_disks(rs);
        let d = usage_of(rs.last());
        assert forall|i: int| 0 <= i < rs.len() && disk_kept(#[trigger] rs[i]) implies exists|j: int|
            0 <= j < c.len() && c[j].total_bytes == rs[i].total_bytes && c[j].used_bytes == used_of(
                rs[i],
            ) by {
            if i < init.len() {
                assert(init[i] == rs[i]);
                let j = choose|j: int|
                    0 <= j < c0.len() && c0[j].total_bytes == init[i].total_bytes && c0[j].used_bytes
                        == used_of(init[i]);
                assert(c[j] == c0[j]);
            } else if seen_before(c0, d) {
                let j = choose|j: int|
                    0 <= j < c0.len() && c0[j].total_bytes == d.total_bytes && c0[j].used_bytes
                        == d.used_bytes;
                assert(c[j] == c0[j]);
            } else {
                assert(c[c.len() - 1] == d);
            }
        }
        assert forall|j: int| #![trigger c[j]] 0 <= j < c.len() implies exists|i: int|
            0 <= i < rs.len() && disk_kept(#[trigger] rs[i]) && c[j] == usage_of(rs[i]) by {
            if j < c0.len() {
                assert(c[j] == c0[j]);
                let i = choose|i: int| 0 <= i < init.len() && disk_kept(#[trigger] init[i]) && c0[j] == usage_of(init[i]);
                assert(rs[i] == init[i]);
            } else {
                assert(rs[rs.len() - 1] == rs.last());
            }
        }
        assert forall|j1: int, j2: int| 0 <= j1 < j2 < c.len() implies !(c[j1].total_bytes
            == c[j2].total_bytes && c[j1].used_bytes == c[j2].used_bytes) by {
            if j2 >= c0.len() {
                assert(c[j2] == d);
                assert(c[j1] == c0[j1]);
            } else {
                assert(c[j1] == c0[j1] && c[j2] == c0[j2]);
            }
        }
    }
}

/// Sorting keeps the elements: one is in the sorted sequence exactly when
/// it is in the sequence sorted.
proof fn lemma_sorted_same_elements(s: Seq<DiskUsage>)
    ensures
        forall|x: DiskUsage| stable_sort(s).contains(x) <==> s.contains(x),
{
    broadcast use vstd::seq_lib::to_multiset_contains;

    crate::sort::lemma_stable_sort(s);
    assert forall|x: DiskUsage| stable_sort(s).contains(x) <==> s.contains(x) by {
        assert(stable_sort(s).to_multiset().count(x) == s.to_multiset().count(x));
    }
}

/// Sorting keeps the total and used sizes of any two disks apart when the
/// sequence sorted has no two disks with both equal.
proof fn lemma_sorted_keys_apart(s: Seq<DiskUsage>)
    requires
        forall|j1: int, j2: int|
            0 <= j1 < j2 < s.len() ==> !(s[j1].total_bytes == s[j2].total_bytes && s[j1].used_bytes
                == s[j2].used_bytes),
    ensures
        ({
            let t = stable_sort(s);
            forall|j1: int, j2: int|
                0 <= j1 < j2 < t.len() ==> !(t[j1].total_bytes == t[j2].total_bytes
                    && t[j1].used_bytes == t[j2].used_bytes)
        }),
    decreases s.len(),
{
    if s.len() > 0 {
        let init = s.drop_last();
        let x = s.last();
        assert forall|j1: int, j2: int| 0 <= j1 < j2 < init.len() implies !(init[j1].total_bytes
            == init[j2].total_bytes && init[j1].used_bytes == init[j2].used_bytes) by {
            assert(init[j1] == s[j1] && init[j2] == s[j2]);
        }
        lemma_sorted_keys_apart(init);
        lemma_sorted_same_elements(init);
        crate::sort::lemma_stable_sort(init);
        crate::sort::lemma_insert_pos(stable_sort(init), x);
        let t0 = stable_sort(init);
        let p = insert_pos(t0, x);
        let t = stable_sort(s);
        assert(t == t0.insert(p, x));
        assert forall|j: int| 0 <= j < t0.len() implies !(t0[j].total_bytes == x.total_bytes
            && t0[j].used_bytes == x.used_bytes) by {
            assert(t0.contains(t0[j]));
            assert(init.contains(t0[j]));
            let i = choose|i: int| 0 <= i < init.len() && init[i] == t0[j];
            assert(s[i] == init[i] && s[s.len() - 1] == x);
        }
        assert forall|j1: int, j2: int| 0 <= j1 < j2 < t.len() implies !(t[j1].total_bytes
            == t[j2].total_bytes && t[j1].used_bytes == t[j2].used_bytes) by {
            if j1 < p {
                assert(t[j1] == t0[j1]);
                if j2 < p {
                    assert(t[j2] == t0[j2]);
                } else if j2 == p {
                    assert(t[j2] == x);
                } else {
                    assert(t[j2] == t0[j2 - 1]);
                }
            } else if j1 == p {
                assert(t[j1] == x);
                assert(t[j2] == t0[j2 - 1]);
            } else {
                assert(t[j1] == t0[j1 - 1] && t[j2] == t0[j2 - 1]);
            }
        }
    }
}

proof fn lemma_shown_covers(rs: Seq<DiskReading>)
    ensures
        ({
            let r = stable_sort(chosen_disks(rs));
            forall|i: int|
                0 <= i < rs.len() && disk_kept(#[trigger] rs[i]) ==> exists|j: int|
                    0 <= j < r.len() && r[j].total_bytes == rs[i].total_bytes && r[j].used_bytes
                        == used_of(rs[i])
        }),
{
    let c = chosen_disks(rs);
    let r = stable_sort(c);
    lemma_chosen_facts(rs);
    lemma_sorted_same_elements(c);
    assert forall|i: int| 0 <= i < rs.len() && disk_kept(#[trigger] rs[i]) implies exists|j: int|
        0 <= j < r.len() && r[j].total_bytes == rs[i].total_bytes && r[j].used_bytes == used_of(
            rs[i],
        ) by {
        let j = choose|j: int|
            0 <= j < c.len() && c[j].total_bytes == rs[i].total_bytes && c[j].used_bytes == used_of(
                rs[i],
            );
        assert(c.contains(c[j]));
        assert(r.contains(c[j]));
    }
}

proof fn lemma_shown_from_readings(rs: Seq<DiskReading>)
    ensures
        ({
            let r = stable_sort(chosen_disks(rs));
            forall|j: int|
                #![trigger r[j]]
                0 <= j < r.len() ==> exists|i: int|
                    0 <= i < rs.len() && disk_kept(#[trigger] rs[i]) && r[j] == usage_of(rs[i])
        }),
{
    let c = chosen_disks(rs);
    let r = stable_sort(c);
    lemma_chosen_facts(rs);
    lemma_sorted_same_elements(c);
    assert forall|j: int| #![trigger r[j]] 0 <= j < r.len() implies exists|i: int|
        0 <= i < rs.len() && disk_kept(#[trigger] rs[i]) && r[j] == usage_of(rs[i]) by {
        assert(r.contains(r[j]));
        assert(c.contains(r[j]));
        let k = choose|k: int| 0 <= k < c.len() && c[k] == r[j];
        assert(c[k] == r[j]);
    }
}

/// The disks shown: every filesystem that is not too small, `/boot`, under
/// `/boot/` or under `/efi` is shown with its total and used sizes, unless
/// another shown disk already has both the same total and the same used
/// size; two shown disks never have both equal; each shown disk is the
/// record of such a filesystem; and larger disks come first.
pub proof fn lemma_disks_shown(rs: Seq<DiskReading>)
    ensures
        ({
            let r = stable_sort(chosen_disks(rs));
            forall|i: int|
                0 <= i < rs.len() && (#[trigger] rs[i]).total_bytes >= MIN_DISK_BYTES
                    && rs[i].mount_point@ != "/boot"@ && !starts_with(rs[i].mount_point@, "/boot/"@)
                    && !starts_with(rs[i].mount_point@, "/efi"@) ==> exists|j: int|
                    0 <= j < r.len() && r[j].total_bytes == rs[i].total_bytes && r[j].used_bytes
                        == used_of(rs[i])
            }),
        ({
            let r = stable_sort(chosen_disks(rs));
            forall|j1: int, j2: int|
                0 <= j1 < j2 < r.len() ==> !(r[j1].total_bytes == r[j2].total_bytes
                    && r[j1].used_bytes == r[j2].used_bytes)
            }),
        ({
            let r = stable_sort(chosen_disks(rs));
            forall|j: int|
                #![trigger r[j]]
                0 <= j < r.len() ==> exists|i: int|
                    0 <= i < rs.len() && disk_kept(#[trigger] rs[i]) && r[j] == usage_of(rs[i])
            }),
        ({
            let r = stable_sort(chosen_disks(rs));
            forall|j1: int, j2: int|
                0 <= j1 < j2 < r.len() ==> r[j1].total_bytes >= r[j2].total_bytes
        }),
{
    let r = stable_sort(chosen_disks(rs));
    assert forall|i: int|
        0 <= i < rs.len() && (#[trigger] rs[i]).total_bytes >= MIN_DISK_BYTES && rs[i].mount_point@
            != "/boot"@ && !starts_with(rs[i].mount_point@, "/boot/"@) && !starts_with(
            rs[i].mount_point@,
            "/efi"@,
        ) implies exists|j: int|
        0 <= j < r.len() && r[j].total_bytes == rs[i].total_bytes && r[j].used_bytes == used_of(
            rs[i],
        ) by {
        lemma_shown_covers(rs);
        assert(disk_kept(rs[i]));
    }
    lemma_shown_from_readings(rs);
    assert(forall|j1: int, j2: int|
        0 <= j1 < j2 < r.len() ==> !(r[j1].total_bytes == r[j2].total_bytes
            && r[j1].used_bytes == r[j2].used_bytes)) by {
        lemma_chosen_facts(rs);
        lemma_sorted_keys_apart(chosen_disks(rs));
    }
    assert forall|j1: int, j2: int| 0 <= j1 < j2 < r.len() implies r[j1].total_bytes
        >= r[j2].total_bytes by {
        crate::sort::lemma_stable_sort(chosen_disks(rs));
        assert(r[j1].key_le(r[j2]));
    }
}

proof fn lemma_last_segment_after_slash(a: Seq<char>, seg: Seq<char>)
    requires
        forall|k: int| 0 <= k < seg.len() ==> seg[k] != '/',
    ensures
        last_segment(a + seq!['/'] + seg, '/') == seg,
    decreases seg.len(),
{
    let s = a + seq!['/'] + seg;
    if seg.len() == 0 {
        assert(s.last() == '/');
    } else {
        let init = seg.drop_last();
        lemma_last_segment_after_slash(a, init);
        assert(s.drop_last() =~= a + seq!['/'] + init);
        assert(s.last() == seg.last());
        assert(init.push(seg.last()) =~= seg);
    }
}

/// A mount point `prefix/name` (with no surrounding spaces and no
/// trailing `/`) is labelled by its last component `name`.
pub proof fn lemma_disk_label_last_component(prefix: Seq<char>, name: Seq<char>)
    requires
        name.len() > 0,
        forall|k: int| 0 <= k < name.len() ==> name[k] != '/',
        !is_ws(name.last()),
        prefix.len() == 0 || !is_ws(prefix[0]),
    ensures
        disk_label(prefix + "/"@ + name) == name,
{
    reveal_strlit("/");
    let m = prefix + "/"@ + name;
    assert(m =~= prefix + seq!['/'] + name);
    assert(m.len() > 1);
    assert(!is_ws(m[0]));
    assert(m.last() == name.last());
    assert(trim_start(m) == m);
    assert(trim_end(m) == m);
    assert(trim(m) == m);
    assert(m != "/"@) by {
        if m == "/"@ {
            assert(m.len() == 1);
        }
    }
    assert(trim_end_char(m, '/') == m);
    lemma_last_segment_after_slash(prefix, name);
}

impl DiskCollector {
    /// The filesystems to show: those of at least 500 MiB that are not
    /// `/boot`, under `/boot/` or under `/efi`, leaving out any whose total
    /// and used sizes equal those of an earlier one, largest first (ties in
    /// reading order).
    pub fn collect_disks(readings: Vec<DiskReading>) -> (r: Vec<DiskUsage>)
        ensures
            r@ == stable_sort(chosen_disks(readings@)),
    {
        let ghost input = readings@;
        let mut rest = readings;
        let n = rest.len();
        let mut out: Vec<DiskUsage> = Vec::new();
        let boot = vec_of("/boot");
        let boot_dir = vec_of("/boot/");
        let efi = vec_of("/efi");
        let mut k: usize = 0;
        while k < n
            invariant
                n == input.len(),
                k <= n,
                rest@ == input.skip(k as int),
                out@ == chosen_disks(input.take(k as int)),
                boot@ == "/boot"@,
                boot_dir@ == "/boot/"@,
                efi@ == "/efi"@,
            decreases n - k,
        {
            assert(rest@.len() > 0);
            let d = rest.remove(0);
            let used: u64 = if d.total_bytes >= d.available_bytes {
                d.total_bytes - d.available_bytes
            } else {
                0
            };
            let mount = vec_of(d.mount_point.as_str());
            let keep = d.total_bytes >= MIN_DISK_BYTES && !vec_eq(&mount, &boot)
                && !vec_starts_with(&mount, &boot_dir) && !vec_starts_with(&mount, &efi);
            let mut seen = false;
            let mut i: usize = 0;
            while i < out.len()
                invariant
                    i <= out.len(),
                    seen == (exists|j: int|
                        0 <= j < i && out@[j].total_bytes == d.total_bytes && out@[j].used_bytes
                            == used),
                decreases out.len() - i,
            {
                if out[i].total_bytes == d.total_bytes && out[i].used_bytes == used {
                    seen = true;
                }
                i += 1;
            }
            proof {
                assert(input.take(k + 1).drop_last() =~= input.take(k as int));
                assert(input.take(k + 1).last() == d);
            }
            if keep && !seen {
                out.push(
                    DiskUsage {
                        name: d.name,
                        mount_point: d.mount_point,
                        file_system: d.file_system,
                        total_bytes: d.total_bytes,
                        used_bytes: used,
                        available_bytes: d.available_bytes,
                    },
                );
            }
            k += 1;
            assert(rest@ =~= input.skip(k as int));
        }
        assert(input.take(n as int) =~= input);
        stable_sort_vec(out)
    }
}

/// Short label for a mount point, e.g. `"/mnt/storage"` as `"storage"`.
pub fn display_disk_name(mount_point: &str) -> (r: String)
    ensures
        r@ == disk_label(mount_point@),
{
    let m = trim_vec(&vec_of(mount_point));
    if m.len() == 0 || vec_eq(&m, &vec_of("/")) {
        return string_from_chars(&Vec::new());
    }
    let mut end = m.len();
    assert(m@.take(m.len() as int) =~= m@);
    while end > 0 && m[end - 1] == '/'
        invariant
            end <= m.len(),
            trim_end_char(m@, '/') == trim_end_char(m@.take(end as int), '/'),
        decreases end,
    {
        assert(m@.take(end as int).drop_last() =~= m@.take(end - 1));
        end -= 1;
    }
    assert(m@.take(m.len() as int) =~= m@);
    let ghost u = m@.take(end as int);
    assert(trim_end_char(u, '/') == u);
    let mut start = end;
    while start > 0 && m[start - 1] != '/'
        invariant
            start <= end <= m.len(),
            u == m@.take(end as int),
            last_segment(u, '/') == last_segment(m@.take(start as int), '/') + m@.subrange(
                start as int,
                end as int,
            ),
        decreases start,
    {
        proof {
            let t = m@.take(start as int);
            assert(t.drop_last() =~= m@.take(start - 1));
            assert(m@.subrange(start - 1, end as int) =~= seq![t.last()] + m@.subrange(
                start as int,
                end as int,
            ));
            assert(last_segment(t, '/') == last_segment(t.drop_last(), '/').push(t.last()));
            assert(last_segment(t.drop_last(), '/').push(t.last()) + m@.subrange(
                start as int,
                end as int,
            ) =~= last_segment(t.drop_last(), '/') + m@.subrange(start - 1, end as int));
        }
        start -= 1;
    }
    proof {
        let t = m@.take(start as int);
        assert(last_segment(t, '/') =~= seq![]);
        assert(last_segment(u, '/') =~= m@.subrange(start as int, end as int));
    }
    let seg = crate::text::slice_of(&m, start, end);
    if seg.len() > 0 {
        string_from_chars(&seg)
    } else {
        string_from_chars(&m)
    }
}

} // verus!
