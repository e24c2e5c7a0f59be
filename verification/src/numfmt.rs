//! Decimal rendering of integers, and the exact rendering that Rust's
//! `{:.N}` formatting gives for a `u64` converted to `f64` and divided by a
//! power of two: the conversion rounds to the nearest double (ties to even)
//! and the fixed-point rendering rounds the exact binary value to `N`
//! decimals (ties to even).

use vstd::prelude::*;

verus! {

/// The ASCII digit for `d < 10`.
pub open spec fn digit_char(d: nat) -> char {
    (48 + d) as char
}

/// Decimal representation of `n`, without leading zeros.
pub open spec fn decimal(n: nat) -> Seq<char>
    decreases n,
{
    if n < 10 {
        seq![digit_char(n)]
    } else {
        decimal(n / 10).push(digit_char(n % 10))
    }
}

/// The last `width` decimal digits of `n`, zero-padded.
pub open spec fn zero_padded(n: nat, width: nat) -> Seq<char>
    decreases width,
{
    if width == 0 {
        seq![]
    } else {
        zero_padded(n / 10, (width - 1) as nat).push(digit_char(n % 10))
    }
}

/// Decimal representation of a signed integer.
pub open spec fn signed_decimal(i: int) -> Seq<char> {
    if i < 0 {
        seq!['-'] + decimal((-i) as nat)
    } else {
        decimal(i as nat)
    }
}

/// `2^e`.
pub open spec fn p2(e: nat) -> nat
    decreases e,
{
    if e == 0 {
        1
    } else {
        2 * p2((e - 1) as nat)
    }
}

/// `10^d`.
pub open spec fn p10(d: nat) -> nat
    decreases d,
{
    if d == 0 {
        1
    } else {
        10 * p10((d - 1) as nat)
    }
}

/// `num / den` rounded to the nearest integer, ties to the even one.
pub open spec fn round_half_even(num: nat, den: nat) -> nat {
    let q = num / den;
    let r = num % den;
    if 2 * r > den || (2 * r == den && q % 2 == 1) {
        q + 1
    } else {
        q
    }
}

/// Number of halvings that bring `b` below `2^53`: the exponent of the unit
/// in the last place of `b as f64`.
pub open spec fn f64_shift(b: nat) -> nat
    decreases b,
{
    if b < p2(53) {
        0
    } else {
        proof {
            lemma_p2_pos(53);
        }
        1 + f64_shift(b / 2)
    }
}

/// The exact value of `b as f64`: `b` rounded to 53 significant bits, ties
/// to even.
pub open spec fn f64_of_u64(b: nat) -> nat {
    let e = f64_shift(b);
    round_half_even(b, p2(e)) * p2(e)
}

/// `format!("{:.d}", x)` for the exact non-negative rational `x = num / den`.
pub open spec fn fixed(num: nat, den: nat, d: nat) -> Seq<char> {
    let q = round_half_even(num * p10(d), den);
    if d == 0 {
        decimal(q)
    } else {
        decimal(q / p10(d)) + seq!['.'] + zero_padded(q % p10(d), d)
    }
}

/// The digit character for `d < 10`.
pub fn digit(d: u128) -> (c: char)
    requires
        d < 10,
    ensures
        c == digit_char(d as nat),
{
    let b = (48 + d) as u8;
    b as char
}

/// Decimal representation of `n`.
pub fn decimal_of(n: u128) -> (r: Vec<char>)
    ensures
        r@ == decimal(n as nat),
    decreases n,
{
    if n < 10 {
        let mut v: Vec<char> = Vec::new();
        v.push(digit(n));
        assert(v@ =~= seq![digit_char(n as nat)]);
        v
    } else {
        let mut v = decimal_of(n / 10);
        v.push(digit(n % 10));
        v
    }
}

/// The last `width` digits of `n`, zero-padded.
pub fn zero_padded_of(n: u128, width: u32) -> (r: Vec<char>)
    ensures
        r@ == zero_padded(n as nat, width as nat),
    decreases width,
{
    if width == 0 {
        Vec::new()
    } else {
        let mut v = zero_padded_of(n / 10, width - 1);
        v.push(digit(n % 10));
        v
    }
}

/// Decimal representation of a signed 32-bit integer.
pub fn signed_decimal_of(i: i32) -> (r: Vec<char>)
    ensures
        r@ == signed_decimal(i as int),
{
    if i < 0 {
        let m: i64 = -(i as i64);
        let mut v: Vec<char> = Vec::new();
        v.push('-');
        let d = decimal_of(m as u128);
        let mut k: usize = 0;
        while k < d.len()
            invariant
                k <= d.len(),
                v@ == seq!['-'] + d@.take(k as int),
            decreases d.len() - k,
        {
            v.push(d[k]);
            k += 1;
            assert(v@ =~= seq!['-'] + d@.take(k as int));
        }
        assert(d@.take(d.len() as int) =~= d@);
        v
    } else {
        decimal_of(i as u128)
    }
}

/// `10^d` for small `d`.
pub fn pow10(d: u32) -> (r: u128)
    requires
        d <= 4,
    ensures
        r == p10(d as nat),
    decreases d,
{
    if d == 0 {
        1
    } else {
        let r = pow10(d - 1);
        proof {
            lemma_p10_mono((d - 1) as nat, 4);
            assert(p10(4) == 10000) by {
                reveal_with_fuel(p10, 5);
            }
        }
        10 * r
    }
}

pub proof fn lemma_p2_pos(e: nat)
    ensures
        p2(e) >= 1,
    decreases e,
{
    if e > 0 {
        lemma_p2_pos((e - 1) as nat);
    }
}

/// Executable `round_half_even`.
pub fn round_half_even_of(num: u128, den: u128) -> (r: u128)
    requires
        den > 0,
        num < u128::MAX,
    ensures
        r == round_half_even(num as nat, den as nat),
{
    let q = num / den;
    let rem = num % den;
    proof {
        assert(q <= num) by (nonlinear_arith)
            requires
                q == num / den,
                den > 0,
        ;
    }
    assert(rem < den);
    if rem > den - rem || (rem == den - rem && q % 2 == 1) {
        q + 1
    } else {
        q
    }
}

/// The exact value of `b as f64`.
pub fn f64_value_of(b: u64) -> (v: u128)
    ensures
        v == f64_of_u64(b as nat),
{
    let limit: u64 = 0x20_0000_0000_0000;  // 2^53
    assert(p2(53) == 0x20_0000_0000_0000) by {
        reveal_with_fuel(p2, 54);
    }
    let mut n: u64 = b;
    let mut p: u128 = 1;
    let ghost mut e: nat = 0;
    while n >= limit
        invariant
            limit == p2(53),
            limit == 0x20_0000_0000_0000,
            p == p2(e),
            p >= 1,
            n as nat == (b as nat) / (p as nat),
            f64_shift(b as nat) == e + f64_shift(n as nat),
            p * 2 <= (b as nat) + (b as nat) + 2,
            p <= 0x1_0000_0000_0000_0000,
        decreases n,
    {
        proof {
            vstd::arithmetic::div_mod::lemma_div_denominator(b as int, p as int, 2);
            vstd::arithmetic::div_mod::lemma_fundamental_div_mod(b as int, p as int);
            assert(p * 2 <= b) by (nonlinear_arith)
                requires
                    n >= 2,
                    n as nat == (b as nat) / (p as nat),
                    b == p * ((b as nat) / (p as nat)) + (b as nat) % (p as nat),
                    (b as nat) % (p as nat) >= 0,
                    p >= 1,
            ;
        }
        n = n / 2;
        p = p * 2;
        proof {
            e = e + 1;
        }
    }
    let m = round_half_even_of(b as u128, p);
    proof {
        assert(m <= (b as nat) / (p as nat) + 1);
        assert(m <= 0x20_0000_0000_0000);
        assert(m * p <= 0x20_0000_0000_0000 * 0x1_0000_0000_0000_0000) by (nonlinear_arith)
            requires
                m <= 0x20_0000_0000_0000,
                p <= 0x1_0000_0000_0000_0000,
        ;
    }
    m * p
}

/// Executable `fixed`: the rendering of `num / den` with `d` decimals.
pub fn fixed_of(num: u128, den: u128, d: u32) -> (r: Vec<char>)
    requires
        den > 0,
        d <= 4,
        num < 0x1_0000_0000_0000_0000_0000_0000,
    ensures
        r@ == fixed(num as nat, den as nat, d as nat),
{
    let scale = pow10(d);
    proof {
        lemma_p10_pos(d as nat);
        assert(p10(4) == 10000) by {
            reveal_with_fuel(p10, 5);
        }
        assert(scale <= 10000) by {
            lemma_p10_mono(d as nat, 4);
        }
        assert(num * scale <= 0x1_0000_0000_0000_0000_0000_0000 * 10000) by (nonlinear_arith)
            requires
                num < 0x1_0000_0000_0000_0000_0000_0000,
                scale <= 10000,
        ;
    }
    let q = round_half_even_of(num * scale, den);
    if d == 0 {
        decimal_of(q)
    } else {
        let mut v = decimal_of(q / scale);
        v.push('.');
        let frac = zero_padded_of(q % scale, d);
        let mut k: usize = 0;
        let ghost head = v@;
        while k < frac.len()
            invariant
                k <= frac.len(),
                v@ == head + frac@.take(k as int),
            decreases frac.len() - k,
        {
            v.push(frac[k]);
            k += 1;
            assert(v@ =~= head + frac@.take(k as int));
        }
        assert(frac@.take(frac.len() as int) =~= frac@);
        v
    }
}

pub proof fn lemma_p10_pos(d: nat)
    ensures
        p10(d) >= 1,
    decreases d,
{
    if d > 0 {
        lemma_p10_pos((d - 1) as nat);
    }
}

pub proof fn lemma_p10_mono(a: nat, b: nat)
    requires
        a <= b,
    ensures
        p10(a) <= p10(b),
    decreases b,
{
    if a < b {
        lemma_p10_mono(a, (b - 1) as nat);
    }
}

/// `c` is an ASCII decimal digit.
pub open spec fn is_digit(c: char) -> bool {
    '0' <= c && c <= '9'
}

/// Every character is a decimal digit.
pub open spec fn all_digits(s: Seq<char>) -> bool {
    forall|i: int| 0 <= i < s.len() ==> is_digit(#[trigger] s[i])
}

/// The number a run of decimal digits spells.
pub open spec fn digits_value(s: Seq<char>) -> nat
    decreases s.len(),
{
    if s.len() == 0 {
        0
    } else {
        digits_value(s.drop_last()) * 10 + (s.last() as nat - 48) as nat
    }
}

/// What `str::parse::<u64>` gives: an optional `+`, then one or more
/// digits whose value fits in a `u64`; anything else fails.
pub open spec fn parsed_u64(s: Seq<char>) -> Option<u64> {
    let d = if s.len() > 0 && s[0] == '+' {
        s.drop_first()
    } else {
        s
    };
    if d.len() > 0 && all_digits(d) && digits_value(d) <= u64::MAX {
        Some(digits_value(d) as u64)
    } else {
        None
    }
}

proof fn lemma_digits_value_prefix(s: Seq<char>, j: int)
    requires
        0 <= j <= s.len(),
        forall|i: int| 0 <= i < s.len() ==> is_digit(#[trigger] s[i]),
    ensures
        digits_value(s.take(j)) <= digits_value(s),
    decreases s.len() - j,
{
    if j < s.len() {
        lemma_digits_value_prefix(s, j + 1);
        assert(s.take(j + 1).drop_last() =~= s.take(j));
    } else {
        assert(s.take(j) =~= s);
    }
}

/// `str::parse::<u64>` on characters.
pub fn parse_u64(s: &Vec<char>) -> (r: Option<u64>)
    ensures
        r == parsed_u64(s@),
{
    let start: usize = if s.len() > 0 && s[0] == '+' {
        1
    } else {
        0
    };
    let ghost d = if s@.len() > 0 && s@[0] == '+' {
        s@.drop_first()
    } else {
        s@
    };
    assert(d =~= s@.skip(start as int));
    if start >= s.len() {
        return None;
    }
    let mut i: usize = start;
    while i < s.len()
        invariant
            start <= i <= s.len(),
            d =~= s@.skip(start as int),
            d == (if s@.len() > 0 && s@[0] == '+' {
                s@.drop_first()
            } else {
                s@
            }),
            forall|k: int| start <= k < i ==> is_digit(#[trigger] s@[k]),
        decreases s.len() - i,
    {
        if !(s[i] >= '0' && s[i] <= '9') {
            assert(!is_digit(d[i - start]));
            assert(!all_digits(d));
            return None;
        }
        i += 1;
    }
    assert forall|k: int| 0 <= k < d.len() implies is_digit(#[trigger] d[k]) by {
        assert(d[k] == s@[k + start]);
    }
    let mut val: u64 = 0;
    let mut j: usize = start;
    while j < s.len()
        invariant
            start <= j <= s.len(),
            d =~= s@.skip(start as int),
            d == (if s@.len() > 0 && s@[0] == '+' {
                s@.drop_first()
            } else {
                s@
            }),
            forall|k: int| 0 <= k < d.len() ==> is_digit(#[trigger] d[k]),
            val == digits_value(d.take(j - start)),
        decreases s.len() - j,
    {
        let ghost pre = d.take(j - start);
        assert(d.take(j - start + 1).drop_last() =~= pre);
        assert(d[j - start] == s@[j as int]);
        let dg: u64 = (s[j] as u32 - 48) as u64;
        proof {
            lemma_digits_value_prefix(d, j - start + 1);
            assert(d.take(j - start + 1).last() == s@[j as int]);
            assert(digits_value(d.take(j - start + 1)) == val * 10 + dg);
        }
        if val > (u64::MAX - dg) / 10 {
            proof {
                assert(val * 10 + dg > u64::MAX) by (nonlinear_arith)
                    requires
                        val > (u64::MAX - dg) / 10,
                        dg <= 9,
                ;
            }
            return None;
        }
        proof {
            assert(val * 10 + dg <= u64::MAX) by (nonlinear_arith)
                requires
                    val <= (u64::MAX - dg) / 10,
                    dg <= 9,
            ;
        }
        val = val * 10 + dg;
        j += 1;
    }
    assert(d.take(j - start) =~= d);
    Some(val)
}

/// Below `2^53` a count converts to `f64` exactly.
pub proof fn lemma_f64_exact(b: nat)
    requires
        b < 0x20_0000_0000_0000,
    ensures
        f64_of_u64(b) == b,
{
    assert(p2(53) == 0x20_0000_0000_0000) by {
        reveal_with_fuel(p2, 54);
    }
    assert(f64_shift(b) == 0);
    assert(p2(0) == 1);
    assert(b / 1 == b && b % 1 == 0) by (nonlinear_arith);
}

/// A whole number of units is printed as that number followed by `d`
/// zero decimals.
pub proof fn lemma_fixed_whole(n: nat, den: nat, d: nat)
    requires
        den >= 1,
        d <= 2,
    ensures
        fixed(n * den, den, d) == (if d == 0 {
            decimal(n)
        } else if d == 1 {
            decimal(n) + seq!['.', '0']
        } else {
            decimal(n) + seq!['.', '0', '0']
        }),
{
    lemma_p10_pos(d);
    let m = p10(d);
    assert(n * den * m == (n * m) * den) by (nonlinear_arith);
    vstd::arithmetic::div_mod::lemma_fundamental_div_mod_converse(
        (n * den * m) as int,
        den as int,
        (n * m) as int,
        0,
    );
    assert(round_half_even(n * den * m, den) == n * m);
    if d > 0 {
        assert(n * m == n * m + 0);
        vstd::arithmetic::div_mod::lemma_fundamental_div_mod_converse((n * m) as int, m as int, n as int, 0);
        assert(digit_char(0) == '0');
        assert(zero_padded(0, 0) =~= Seq::<char>::empty());
        assert(0nat / 10 == 0 && 0nat % 10 == 0);
        assert(zero_padded(0, 1) =~= seq!['0']);
        assert(zero_padded(0, 2) =~= seq!['0', '0']);
        assert((n * m) / m == n && (n * m) % m == 0);
        assert(fixed(n * den, den, d) == decimal(n) + seq!['.'] + zero_padded(0, d));
        if d == 1 {
            assert(decimal(n) + seq!['.'] + zero_padded(0, 1) =~= decimal(n) + seq!['.', '0']);
        } else {
            assert(decimal(n) + seq!['.'] + zero_padded(0, 2) =~= decimal(n) + seq!['.', '0', '0']);
        }
    } else {
        assert(d == 0 && p10(0) == 1 && m == 1);
        assert(n * m == n) by (nonlinear_arith)
            requires
                m == 1,
        ;
        assert(fixed(n * den, den, d) == decimal(n * m));
    }
}

} // verus!
