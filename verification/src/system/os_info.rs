//! Uptime and byte-size rendering, and the system overview record.

use vstd::prelude::*;
use crate::numfmt::{decimal, decimal_of, f64_of_u64, f64_value_of, fixed, fixed_of, p2};
use crate::split::{append_str, push_all};
use crate::system::models::SystemOverview;
use crate::text::string_from_chars;

verus! {

/// Renders uptimes and sizes for the dashboard.
pub struct OsInfoCollector;

/// `"{d}d {h}h {m}m {s}s"`, leaving out leading zero units.
pub open spec fn uptime_text(seconds: nat) -> Seq<char> {
    let days = seconds / 86400;
    let hours = (seconds % 86400) / 3600;
    let minutes = (seconds % 3600) / 60;
    let secs = seconds % 60;
    if days > 0 {
        decimal(days) + "d "@ + decimal(hours) + "h "@ + decimal(minutes) + "m "@ + decimal(secs)
            + "s"@
    } else if hours > 0 {
        decimal(hours) + "h "@ + decimal(minutes) + "m "@ + decimal(secs) + "s"@
    } else if minutes > 0 {
        decimal(minutes) + "m "@ + decimal(secs) + "s"@
    } else {
        decimal(secs) + "s"@
    }
}

/// A byte count in the largest binary unit it reaches, up to TB; the count
/// is converted to `f64` and printed with 2, 2, 1 and 0 decimals for TB,
/// GB, MB and KB, and exactly for plain bytes.
pub open spec fn size_text(bytes: nat) -> Seq<char> {
    let v = f64_of_u64(bytes);
    if v >= p2(40) {
        fixed(v, p2(40), 2) + " TB"@
    } else if v >= p2(30) {
        fixed(v, p2(30), 2) + " GB"@
    } else if v >= p2(20) {
        fixed(v, p2(20), 1) + " MB"@
    } else if v >= p2(10) {
        fixed(v, p2(10), 0) + " KB"@
    } else {
        decimal(bytes) + " B"@
    }
}

/// The exact value of `b as f64` is at most twice `2^64`.
pub proof fn lemma_f64_value_bound(b: nat)
    requires
        b < 0x1_0000_0000_0000_0000,
    ensures
        f64_of_u64(b) <= 0x2_0000_0000_0000_0000,
{
    let e = crate::numfmt::f64_shift(b);
    let p = p2(e);
    crate::numfmt::lemma_p2_pos(e);
    let q = b / p;
    let m = crate::numfmt::round_half_even(b, p);
    assert(m <= q + 1);
    assert(q * p <= b) by (nonlinear_arith)
        requires
            q == b / p,
            p >= 1,
    ;
    assert(p <= b || e == 0) by {
        lemma_shift_scale(b);
    }
    assert(m * p <= q * p + p) by (nonlinear_arith)
        requires
            m <= q + 1,
            p >= 1,
    ;
}

/// Past `2^53`, the unit of the last place does not exceed the value.
pub proof fn lemma_shift_scale(b: nat)
    ensures
        crate::numfmt::f64_shift(b) == 0 || p2(crate::numfmt::f64_shift(b)) <= b,
    decreases b,
{
    crate::numfmt::lemma_p2_pos(53);
    if b >= p2(53) {
        lemma_shift_scale(b / 2);
        let e = crate::numfmt::f64_shift(b / 2);
        if e > 0 {
            assert(p2(e + 1) == 2 * p2(e));
        } else {
            assert(p2(1) == 2);
            assert(p2(53) >= 2) by {
                reveal_with_fuel(p2, 54);
            }
        }
    }
}

/// An uptime of `d` days, `h` hours, `m` minutes and `s` seconds (with
/// `h < 24`, `m < 60`, `s < 60`) is shown as those four numbers, leaving
/// out the leading units that are zero.
pub proof fn lemma_uptime_shows_parts(d: nat, h: nat, m: nat, s: nat)
    requires
        h < 24,
        m < 60,
        s < 60,
    ensures
        uptime_text(d * 86400 + h * 3600 + m * 60 + s) == (if d > 0 {
            decimal(d) + "d "@ + decimal(h) + "h "@ + decimal(m) + "m "@ + decimal(s) + "s"@
        } else if h > 0 {
            decimal(h) + "h "@ + decimal(m) + "m "@ + decimal(s) + "s"@
        } else if m > 0 {
            decimal(m) + "m "@ + decimal(s) + "s"@
        } else {
            decimal(s) + "s"@
        }),
{
    let t: int = (d * 86400 + h * 3600 + m * 60 + s) as int;
    let in_day: int = (h * 3600 + m * 60 + s) as int;
    let in_hour: int = (m * 60 + s) as int;
    assert(t == d * 86400 + in_day && 0 <= in_day < 86400) by (nonlinear_arith)
        requires
            t == d * 86400 + h * 3600 + m * 60 + s,
            in_day == h * 3600 + m * 60 + s,
            h < 24,
            m < 60,
            s < 60,
    ;
    vstd::arithmetic::div_mod::lemma_fundamental_div_mod_converse(t, 86400, d as int, in_day);
    vstd::arithmetic::div_mod::lemma_fundamental_div_mod_converse(in_day, 3600, h as int, in_hour);
    assert(t == (d * 24 + h) * 3600 + in_hour) by (nonlinear_arith)
        requires
            t == d * 86400 + h * 3600 + m * 60 + s,
            in_hour == m * 60 + s,
    ;
    vstd::arithmetic::div_mod::lemma_fundamental_div_mod_converse(
        t,
        3600,
        (d * 24 + h) as int,
        in_hour,
    );
    vstd::arithmetic::div_mod::lemma_fundamental_div_mod_converse(in_hour, 60, m as int, s as int);
    assert(t == (d * 1440 + h * 60 + m) * 60 + s) by (nonlinear_arith)
        requires
            t == d * 86400 + h * 3600 + m * 60 + s,
    ;
    vstd::arithmetic::div_mod::lemma_fundamental_div_mod_converse(
        t,
        60,
        (d * 1440 + h * 60 + m) as int,
        s as int,
    );
}

/// Sizes in whole units read as that number of units: fewer than 1024
/// bytes in B, then whole KB with no decimals, whole MB with one, whole GB
/// and TB with two (for TB up to the exact range of `f64`, 8191 TB).
pub proof fn lemma_size_text_whole_units(n: nat)
    ensures
        n < 1024 ==> size_text(n) == decimal(n) + " B"@,
        1 <= n < 1024 ==> size_text(n * 1024) == decimal(n) + " KB"@,
        1 <= n < 1024 ==> size_text(n * 1048576) == decimal(n) + ".0 MB"@,
        1 <= n < 1024 ==> size_text(n * 1073741824) == decimal(n) + ".00 GB"@,
        1 <= n < 8192 ==> size_text(n * 1099511627776) == decimal(n) + ".00 TB"@,
{
    reveal_strlit(".0 MB");
    reveal_strlit(" MB");
    reveal_strlit(".00 GB");
    reveal_strlit(" GB");
    reveal_strlit(".00 TB");
    reveal_strlit(" TB");
    assert(p2(10) == 1024 && p2(20) == 1048576 && p2(30) == 1073741824 && p2(40)
        == 1099511627776) by {
        reveal_with_fuel(p2, 41);
    }
    if n < 1024 {
        crate::numfmt::lemma_f64_exact(n);
    }
    if 1 <= n < 1024 {
        assert(1024 <= n * 1024 < 1048576);
        assert(1048576 <= n * 1048576 < 1073741824);
        assert(1073741824 <= n * 1073741824 < 1099511627776);
        crate::numfmt::lemma_f64_exact(n * 1024);
        crate::numfmt::lemma_f64_exact(n * 1048576);
        crate::numfmt::lemma_f64_exact(n * 1073741824);
        crate::numfmt::lemma_fixed_whole(n, 1024, 0);
        crate::numfmt::lemma_fixed_whole(n, 1048576, 1);
        crate::numfmt::lemma_fixed_whole(n, 1073741824, 2);
        assert(decimal(n) + seq!['.', '0'] + " MB"@ =~= decimal(n) + ".0 MB"@);
        assert(decimal(n) + seq!['.', '0', '0'] + " GB"@ =~= decimal(n) + ".00 GB"@);
    }
    if 1 <= n < 8192 {
        assert(1099511627776 <= n * 1099511627776 < 0x20_0000_0000_0000);
        crate::numfmt::lemma_f64_exact(n * 1099511627776);
        crate::numfmt::lemma_fixed_whole(n, 1099511627776, 2);
        assert(decimal(n) + seq!['.', '0', '0'] + " TB"@ =~= decimal(n) + ".00 TB"@);
    }
}

impl OsInfoCollector {
    /// Renders an uptime in seconds, e.g. `90061` as `"1d 1h 1m 1s"`.
    pub fn format_uptime(seconds: u64) -> (r: String)
        ensures
            r@ == uptime_text(seconds as nat),
    {
        let days = seconds / 86400;
        let hours = (seconds % 86400) / 3600;
        let minutes = (seconds % 3600) / 60;
        let secs = seconds % 60;
        let mut out: Vec<char> = Vec::new();
        if days > 0 {
            push_all(&mut out, &decimal_of(days as u128));
            append_str(&mut out, "d ");
        }
        if days > 0 || hours > 0 {
            push_all(&mut out, &decimal_of(hours as u128));
            append_str(&mut out, "h ");
        }
        if days > 0 || hours > 0 || minutes > 0 {
            push_all(&mut out, &decimal_of(minutes as u128));
            append_str(&mut out, "m ");
        }
        push_all(&mut out, &decimal_of(secs as u128));
        append_str(&mut out, "s");
        assert(out@ =~= uptime_text(seconds as nat));
        string_from_chars(&out)
    }

    /// Renders a byte count, e.g. `512000` as `"500 KB"`.
    pub fn format_bytes(bytes: u64) -> (r: String)
        ensures
            r@ == size_text(bytes as nat),
    {
        let v = f64_value_of(bytes);
        proof {
            lemma_f64_value_bound(bytes as nat);
            assert(p2(40) == 0x100_0000_0000) by {
                reveal_with_fuel(p2, 41);
            }
        }
        let tb: u128 = 0x100_0000_0000;
        let gb: u128 = 0x4000_0000;
        let mb: u128 = 0x10_0000;
        let kb: u128 = 0x400;
        assert(p2(30) == gb && p2(20) == mb && p2(10) == kb) by {
            reveal_with_fuel(p2, 31);
        }
        let mut out: Vec<char>;
        if v >= tb {
            out = fixed_of(v, tb, 2);
            append_str(&mut out, " TB");
        } else if v >= gb {
            out = fixed_of(v, gb, 2);
            append_str(&mut out, " GB");
        } else if v >= mb {
            out = fixed_of(v, mb, 1);
            append_str(&mut out, " MB");
        } else if v >= kb {
            out = fixed_of(v, kb, 0);
            append_str(&mut out, " KB");
        } else {
            out = decimal_of(bytes as u128);
            append_str(&mut out, " B");
        }
        string_from_chars(&out)
    }

    /// The overview record from what the operating system reports: the OS
    /// name (default `"Linux"`) followed by its version when there is one,
    /// the kernel version (default `"Unknown"`), the architecture, the host
    /// name (default `"localhost"`) and the uptime with its rendering.
    pub fn collect_overview(
        os_name: Option<String>,
        os_version: Option<String>,
        kernel_version: Option<String>,
        arch: String,
        hostname: Option<String>,
        uptime_seconds: u64,
    ) -> (r: SystemOverview)
        ensures
            r.os_name@ == ({
                let n = match os_name {
                    Some(n) => n@,
                    None => "Linux"@,
                };
                match os_version {
                    Some(v) if v@.len() > 0 => n + " "@ + v@,
                    _ => n,
                }
            }),
            r.kernel_version@ == (match kernel_version {
                Some(k) => k@,
                None => "Unknown"@,
            }),
            r.arch == arch,
            r.hostname@ == (match hostname {
                Some(h) => h@,
                None => "localhost"@,
            }),
            r.uptime_seconds == uptime_seconds,
            r.uptime_formatted@ == uptime_text(uptime_seconds as nat),
    {
        let mut name: Vec<char> = match &os_name {
            Some(n) => crate::text::vec_of(n.as_str()),
            None => crate::text::vec_of("Linux"),
        };
        match &os_version {
            Some(v) => {
                if !v.as_str().is_empty() {
                    append_str(&mut name, " ");
                    append_str(&mut name, v.as_str());
                }
            },
            None => {},
        }
        let kernel = match kernel_version {
            Some(k) => k,
            None => "Unknown".to_owned(),
        };
        let host = match hostname {
            Some(h) => h,
            None => "localhost".to_owned(),
        };
        SystemOverview {
            os_name: string_from_chars(&name),
            kernel_version: kernel,
            arch,
            hostname: host,
            uptime_seconds,
            uptime_formatted: Self::format_uptime(uptime_seconds),
        }
    }
}

} // verus!
