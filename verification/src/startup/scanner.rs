//! Combining the entries of the system and user autostart directories.

use vstd::prelude::*;
use crate::sort::{KeyOrder, stable_sort, stable_sort_vec};
use crate::startup::models::StartupItem;
use crate::text::{lemma_lex_total, lemma_lex_trans, lex_le, lower_vec, lowercase, vec_eq, vec_lex_le, vec_of};

verus! {

/// Reads the autostart directories.
pub struct StartupScanner;

/// Entries ordered by their lowercase names.
impl KeyOrder for StartupItem {
    open spec fn key_le(self, other: Self) -> bool {
        lex_le(lowercase(self.name@), lowercase(other.name@))
    }

    proof fn lemma_key_total(a: Self, b: Self) {
        lemma_lex_total(lowercase(a.name@), lowercase(b.name@));
    }

    proof fn lemma_key_trans(a: Self, b: Self, c: Self) {
        lemma_lex_trans(lowercase(a.name@), lowercase(b.name@), lowercase(c.name@));
    }

    fn le(&self, other: &Self) -> (r: bool) {
        let a = lower_vec(&vec_of(self.name.as_str()));
        let b = lower_vec(&vec_of(other.name.as_str()));
        vec_lex_le(&a, &b)
    }
}

/// Index of the entry with the file name, or the number of entries.
pub open spec fn index_of_file(s: Seq<StartupItem>, file_name: Seq<char>) -> int
    decreases s.len(),
{
    if s.len() == 0 {
        0
    } else if s[0].file_name@ == file_name {
        0
    } else {
        1 + index_of_file(s.drop_first(), file_name)
    }
}

/// One entry per file name, in the order the names first appear, each the
/// last entry read under that name (a user entry replaces a system entry
/// of the same file name).
pub open spec fn merge_entries(s: Seq<StartupItem>) -> Seq<StartupItem>
    decreases s.len(),
{
    if s.len() == 0 {
        seq![]
    } else {
        let m = merge_entries(s.drop_last());
        let k = index_of_file(m, s.last().file_name@);
        if k < m.len() {
            m.update(k, s.last())
        } else {
            m.push(s.last())
        }
    }
}

proof fn lemma_index_of_file(s: Seq<StartupItem>, f: Seq<char>)
    ensures
        0 <= index_of_file(s, f) <= s.len(),
        index_of_file(s, f) < s.len() ==> s[index_of_file(s, f)].file_name@ == f,
        forall|k: int| 0 <= k < index_of_file(s, f) ==> s[k].file_name@ != f,
    decreases s.len(),
{
    if s.len() > 0 && s[0].file_name@ != f {
        lemma_index_of_file(s.drop_first(), f);
        assert forall|k: int| 0 <= k < index_of_file(s, f) implies s[k].file_name@ != f by {
            if k > 0 {
                assert(s[k] == s.drop_first()[k - 1]);
            }
        }
    }
}

proof fn lemma_index_of_file_is(s: Seq<StartupItem>, f: Seq<char>, i: int)
    requires
        0 <= i <= s.len(),
        forall|k: int| 0 <= k < i ==> s[k].file_name@ != f,
        i < s.len() ==> s[i].file_name@ == f,
    ensures
        index_of_file(s, f) == i,
    decreases i,
{
    if i > 0 {
        assert forall|k: int| 0 <= k < i - 1 implies s.drop_first()[k].file_name@ != f by {
            assert(s.drop_first()[k] == s[k + 1]);
        }
        lemma_index_of_file_is(s.drop_first(), f, i - 1);
    }
}

impl StartupScanner {
    /// The entries shown: the system entries, then the user entries, merged
    /// by file name (see `merge_entries`) and ordered by lowercase name.
    pub fn scan_all(system_entries: Vec<StartupItem>, user_entries: Vec<StartupItem>) -> (r: Vec<StartupItem>)
        ensures
            r@ == stable_sort(merge_entries(system_entries@ + user_entries@)),
    {
        let ghost all = system_entries@ + user_entries@;
        let mut merged: Vec<StartupItem> = Vec::new();
        let mut sources: Vec<Vec<StartupItem>> = Vec::new();
        sources.push(system_entries);
        sources.push(user_entries);
        let ghost done: Seq<StartupItem> = seq![];
        let mut s: usize = 0;
        while s < sources.len()
            invariant
                s <= sources.len(),
                sources@.len() == 2,
                all == sources@[0]@ + sources@[1]@,
                s == 0 ==> done == Seq::<StartupItem>::empty(),
                s == 1 ==> done == sources@[0]@,
                s == 2 ==> done == all,
                merged@ == merge_entries(done),
            decreases sources.len() - s,
        {
            let list = &sources[s];
            let ghost base = done;
            let mut i: usize = 0;
            while i < list.len()
                invariant
                    i <= list@.len(),
                    merged@ == merge_entries(base + list@.take(i as int)),
                decreases list.len() - i,
            {
                let item = &list[i];
                let key = vec_of(item.file_name.as_str());
                let ghost m = merged@;
                proof {
                    lemma_index_of_file(m, item.file_name@);
                    let t = base + list@.take(i + 1);
                    assert(t.drop_last() =~= base + list@.take(i as int));
                    assert(t.last() == *item);
                }
                let mut k: usize = 0;
                while k < merged.len() && !vec_eq(&vec_of(merged[k].file_name.as_str()), &key)
                    invariant
                        k <= merged@.len(),
                        merged@ == m,
                        key@ == item.file_name@,
                        forall|j: int| 0 <= j < k ==> m[j].file_name@ != item.file_name@,
                    decreases merged.len() - k,
                {
                    k += 1;
                }
                proof {
                    lemma_index_of_file_is(m, item.file_name@, k as int);
                }
                if k < merged.len() {
                    merged.set(k, item.clone());
                } else {
                    merged.push(item.clone());
                }
                i += 1;
            }
            assert(list@.take(i as int) =~= list@);
            proof {
                done = base + list@;
            }
            assert(s == 0 ==> done =~= sources@[0]@);
            assert(s == 1 ==> done =~= all);
            s += 1;
        }
        stable_sort_vec(merged)
    }
}

} // verus!
