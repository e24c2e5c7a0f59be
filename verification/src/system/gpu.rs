//! Reading the graphics card's load and memory from `nvidia-smi`.

use vstd::prelude::*;
use crate::applications::traits::{split_all, split_all_vec};
use crate::numfmt::{parse_u64, parsed_u64};
use crate::split::{lines, lines_vec, views};
use crate::text::{string_from_chars, trim, trim_vec, vec_of};

verus! {

/// Queries the graphics card's load and memory.
pub struct GpuCollector;

/// The fields of the first line `nvidia-smi` printed for the query
/// `utilization.gpu,name,memory.used,memory.total` in CSV without header
/// or units.
#[derive(Debug)]
pub struct NvidiaReading {
    /// The load in percent, as printed (a decimal number).
    pub usage_text: String,
    pub name: String,
    pub used_memory_mb: u64,
    pub total_memory_mb: u64,
}

/// Each text trimmed.
pub open spec fn trim_each(s: Seq<Seq<char>>) -> Seq<Seq<char>> {
    Seq::new(s.len(), |i: int| trim(s[i]))
}

/// The trimmed comma-separated fields of the first line of the output,
/// when there is a line with at least four of them.
pub open spec fn nvidia_fields(text: Seq<char>) -> Option<Seq<Seq<char>>> {
    let ls = lines(text);
    if ls.len() == 0 {
        None
    } else {
        let parts = trim_each(split_all(ls[0], ','));
        if parts.len() >= 4 {
            Some(parts)
        } else {
            None
        }
    }
}

/// A number of megabytes as printed, 0 where it does not read as one.
pub open spec fn megabytes(s: Seq<char>) -> u64 {
    match parsed_u64(s) {
        Some(v) => v,
        None => 0,
    }
}

impl GpuCollector {
    /// Reads the first line of `nvidia-smi`'s output: `None` when there is
    /// no line or it has fewer than four fields; otherwise the load text,
    /// the name, and the used and total memory (0 where a number does not
    /// read).
    pub fn parse_nvidia_output(text: &str) -> (r: Option<NvidiaReading>)
        ensures
            match nvidia_fields(text@) {
                None => r is None,
                Some(parts) => r matches Some(g) && {
                    &&& g.usage_text@ == parts[0]
                    &&& g.name@ == parts[1]
                    &&& g.used_memory_mb == megabytes(parts[2])
                    &&& g.total_memory_mb == megabytes(parts[3])
                },
            },
    {
        let chars = vec_of(text);
        let ls = lines_vec(&chars);
        if ls.len() == 0 {
            return None;
        }
        let raw = split_all_vec(&ls[0], ',');
        let mut parts: Vec<Vec<char>> = Vec::new();
        let mut i: usize = 0;
        while i < raw.len()
            invariant
                i <= raw@.len(),
                parts@.len() == i,
                views(parts@) == trim_each(views(raw@).take(i as int)),
            decreases raw.len() - i,
        {
            let ghost old_parts = parts@;
            parts.push(trim_vec(&raw[i]));
            proof {
                assert(parts@[i as int]@ == trim(raw@[i as int]@));
                assert(views(parts@)[i as int] == trim(views(raw@)[i as int]));
                assert forall|k: int| 0 <= k < i implies #[trigger] views(parts@)[k] == trim(views(raw@)[k]) by {
                    assert(parts@[k] == old_parts[k]);
                    assert(views(old_parts)[k] == trim_each(views(raw@).take(i as int))[k]);
                }
                assert(views(parts@) =~= trim_each(views(raw@).take(i as int + 1)));
            }
            i += 1;
        }
        proof {
            assert(views(raw@).take(i as int) =~= views(raw@));
        }
        if parts.len() < 4 {
            return None;
        }
        let used = match parse_u64(&parts[2]) {
            Some(v) => v,
            None => 0,
        };
        let total = match parse_u64(&parts[3]) {
            Some(v) => v,
            None => 0,
        };
        Some(
            NvidiaReading {
                usage_text: string_from_chars(&parts[0]),
                name: string_from_chars(&parts[1]),
                used_memory_mb: used,
                total_memory_mb: total,
            },
        )
    }
}

} // verus!
