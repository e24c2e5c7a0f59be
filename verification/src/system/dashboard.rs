//! The texts the dashboard shows for the processor, graphics card and
//! memory.

use vstd::prelude::*;
use crate::numfmt::{decimal, decimal_of, f64_of_u64, f64_value_of, fixed, fixed_of, p2};
use crate::split::{append_str, push_all};
use crate::system::os_info::lemma_f64_value_bound;
use crate::text::string_from_chars;

verus! {

/// A size converted to `f64` and divided by `2^e`, with one decimal.
pub open spec fn scaled_text(value: nat, e: nat) -> Seq<char> {
    fixed(f64_of_u64(value), p2(e), 1)
}

/// `"{n}"` for the number of cores.
pub fn cpu_cores_text(core_count: usize) -> (r: String)
    ensures
        r@ == decimal(core_count as nat),
{
    string_from_chars(&decimal_of(core_count as u128))
}

/// `"{mhz} MHz"` for the clock speed.
pub fn cpu_freq_text(mhz: u64) -> (r: String)
    ensures
        r@ == decimal(mhz as nat) + " MHz"@,
{
    let mut out = decimal_of(mhz as u128);
    append_str(&mut out, " MHz");
    string_from_chars(&out)
}

/// The graphics card's name, `"N/A"` when there is none.
pub fn gpu_name_text(name: &str) -> (r: String)
    ensures
        r@ == (if name@.len() == 0 {
            "N/A"@
        } else {
            name@
        }),
{
    if name.unicode_len() == 0 {
        "N/A".to_owned()
    } else {
        name.to_owned()
    }
}

/// One decimal of `value as f64 / 2^e`, for `e` of 10 or 30.
fn scaled(value: u64, e: u32) -> (r: Vec<char>)
    requires
        e == 10 || e == 30,
    ensures
        r@ == scaled_text(value as nat, e as nat),
{
    let v = f64_value_of(value);
    proof {
        lemma_f64_value_bound(value as nat);
    }
    let den: u128 = if e == 10 {
        0x400
    } else {
        0x4000_0000
    };
    assert(p2(e as nat) == den) by {
        reveal_with_fuel(p2, 31);
    }
    fixed_of(v, den, 1)
}

/// `"{used:.1} / {total:.1} GB"` of the video memory given in megabytes
/// (each converted to `f64` and divided by 1024), `"N/A"` when the total is
/// not known.
pub fn gpu_vram_text(used_mb: u64, total_mb: u64) -> (r: String)
    ensures
        r@ == (if total_mb > 0 {
            scaled_text(used_mb as nat, 10) + " / "@ + scaled_text(total_mb as nat, 10) + " GB"@
        } else {
            "N/A"@
        }),
{
    if total_mb > 0 {
        let mut out = scaled(used_mb, 10);
        append_str(&mut out, " / ");
        let t = scaled(total_mb, 10);
        push_all(&mut out, &t);
        append_str(&mut out, " GB");
        string_from_chars(&out)
    } else {
        "N/A".to_owned()
    }
}

/// `"{:.1}"` of a byte count converted to `f64` and divided by `2^30`.
pub fn gigabytes_text(bytes: u64) -> (r: String)
    ensures
        r@ == scaled_text(bytes as nat, 30),
{
    string_from_chars(&scaled(bytes, 30))
}

} // verus!
