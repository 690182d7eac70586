//! Readings of the host (CPU load, memory), as taken by the bot's runtime,
//! and their rendering as text.
//!
//! Byte counts are shown the way `format!("{:.2} GB")` / `format!("{:.0} MB")`
//! shows the `f64` quotients of the count by 1024³ or 1024², and the CPU load
//! the way `format!("{:.1}")` shows an `f32`; both are computed here exactly,
//! in integers, from the binary value of the float.
use crate::text::{decimal, digit, digit_char, push_char, push_decimal, push_str};
use vstd::arithmetic::div_mod::{lemma_div_denominator, lemma_fundamental_div_mod};
use vstd::prelude::*;

verus! {

// ----- rounding -----

/// `n / d` rounded to the nearest integer, ties to the even one.
pub open spec fn round_half_even(n: nat, d: nat) -> nat
    recommends
        d > 0,
{
    let q = n / d;
    let r = n % d;
    if 2 * r > d || (2 * r == d && q % 2 == 1) {
        q + 1
    } else {
        q
    }
}

/// `n / d` rounded to the nearest integer, ties to the even one.
pub fn div_round_half_even(n: u128, d: u128) -> (q: u128)
    requires
        d > 0,
        n < 0x4000_0000_0000_0000_0000_0000_0000_0000,
        d < 0x4000_0000_0000_0000_0000_0000_0000_0000,
    ensures
        q == round_half_even(n as nat, d as nat),
{
    let q = n / d;
    let r = n % d;
    if 2 * r > d || (2 * r == d && q % 2 == 1) {
        q + 1
    } else {
        q
    }
}

// ----- u64 as f64 -----

/// 2^53: below it every integer is an `f64` exactly.
pub open spec fn f64_exact_limit() -> nat {
    0x20_0000_0000_0000
}

/// The distance between consecutive `f64` values near `v`: the power of two by
/// which `v` must be divided to fit in 53 bits.
pub open spec fn f64_spacing(v: nat) -> nat
    decreases v,
{
    if v < f64_exact_limit() {
        1
    } else {
        2 * f64_spacing(v / 2)
    }
}

/// The value of `v as f64` for an integer `v`: `v` rounded to a multiple of
/// the spacing, ties to the even multiple.
pub open spec fn u64_to_f64_value(v: nat) -> nat {
    round_half_even(v, f64_spacing(v)) * f64_spacing(v)
}

/// The value of `v as f64`, an integer.
pub fn u64_as_f64_value(v: u64) -> (f: u128)
    ensures
        f == u64_to_f64_value(v as nat),
        f <= 0x1_0000_0000_0001_0000,
{
    let mut x: u64 = v;
    let mut unit: u128 = 1;
    while x >= 0x20_0000_0000_0000
        invariant
            0 < unit <= 0x1000,
            f64_spacing(v as nat) == unit * f64_spacing(x as nat),
            x == v as nat / unit as nat,
        decreases x,
    {
        proof {
            lemma_div_denominator(v as int, unit as int, 2);
            lemma_fundamental_div_mod(v as int, unit as int);
            assert(unit * (2 * f64_spacing((x / 2) as nat)) == (2 * unit) * f64_spacing(
                (x / 2) as nat,
            )) by (nonlinear_arith);
            assert(unit < 0x800) by (nonlinear_arith)
                requires
                    x >= 0x20_0000_0000_0000,
                    unit * x <= v,
                    v < 0x1_0000_0000_0000_0000,
                    unit > 0,
            ;
        }
        x = x / 2;
        unit = unit * 2;
    }
    assert(f64_spacing(x as nat) == 1);
    assert(f64_spacing(v as nat) == unit) by (nonlinear_arith)
        requires
            f64_spacing(v as nat) == unit * f64_spacing(x as nat),
            f64_spacing(x as nat) == 1,
    ;
    proof {
        lemma_fundamental_div_mod(v as int, unit as int);
    }
    let q = x as u128;
    let r = v as u128 - unit * q;
    let rounded = if 2 * r > unit || (2 * r == unit && q % 2 == 1) {
        q + 1
    } else {
        q
    };
    proof {
        assert(r == v as nat % unit as nat);
        assert(f64_spacing(v as nat) == unit);
        assert(q == v as nat / unit as nat);
        assert(rounded == round_half_even(v as nat, unit as nat));
        assert(rounded * unit <= 0x1_0000_0000_0001_0000) by (nonlinear_arith)
            requires
                rounded <= q + 1,
                unit * q <= v,
                v < 0x1_0000_0000_0000_0000,
                unit <= 0x1000,
        ;
    }
    rounded * unit
}

// ----- byte counts -----

/// 1024³, the bytes of a GB.
pub open spec fn gib() -> nat {
    0x4000_0000
}

/// 1024², the bytes of a MB.
pub open spec fn mib() -> nat {
    0x10_0000
}

/// The numeral of `n / 100` with two decimals: `n` in hundredths.
pub open spec fn hundredths_text(n: nat) -> Seq<char> {
    decimal(n / 100) + seq!['.', digit_char((n / 10) % 10), digit_char(n % 10)]
}

/// The text that shows a byte count: GB with two decimals from one GB on,
/// whole MB below, rounding the `f64` quotient to nearest, ties to even.
pub open spec fn format_bytes_text(value: nat) -> Seq<char> {
    let f = u64_to_f64_value(value);
    if f >= gib() {
        hundredths_text(round_half_even(f * 100, gib())) + seq![' ', 'G', 'B']
    } else {
        decimal(round_half_even(f, mib())) + seq![' ', 'M', 'B']
    }
}

/// Shows a byte count in GB (two decimals) when it reaches one GB, else in
/// whole MB.
pub fn format_bytes(value: u64) -> (s: String)
    ensures
        s@ == format_bytes_text(value as nat),
{
    let f = u64_as_f64_value(value);
    let mut s = String::new();
    if f >= 0x4000_0000 {
        let h = div_round_half_even(f * 100, 0x4000_0000);
        push_decimal(&mut s, h / 100);
        push_char(&mut s, '.');
        push_char(&mut s, digit(((h / 10) % 10) as u8));
        push_char(&mut s, digit((h % 10) as u8));
        push_char(&mut s, ' ');
        push_char(&mut s, 'G');
        push_char(&mut s, 'B');
        assert(s@ =~= format_bytes_text(value as nat));
    } else {
        let m = div_round_half_even(f, 0x10_0000);
        push_decimal(&mut s, m);
        push_char(&mut s, ' ');
        push_char(&mut s, 'M');
        push_char(&mut s, 'B');
        assert(s@ =~= format_bytes_text(value as nat));
    }
    s
}

// ----- f32 with one decimal -----

/// 2 to the power `n`.
pub open spec fn two_pow(n: nat) -> nat
    decreases n,
{
    if n == 0 {
        1
    } else {
        2 * two_pow((n - 1) as nat)
    }
}

/// Powers of two grow with the exponent.
pub proof fn lemma_two_pow_monotonic(a: nat, b: nat)
    requires
        a <= b,
    ensures
        two_pow(a) <= two_pow(b),
    decreases b,
{
    if a < b {
        lemma_two_pow_monotonic(a, (b - 1) as nat);
    }
}

/// The sign bit of an `f32` given by its bits.
pub open spec fn f32_negative(bits: u32) -> bool {
    bits >= 0x8000_0000
}

/// The biased exponent field of an `f32`.
pub open spec fn f32_exponent(bits: u32) -> nat {
    (bits as nat / 0x80_0000) % 0x100
}

/// The fraction field of an `f32`.
pub open spec fn f32_fraction(bits: u32) -> nat {
    bits as nat % 0x80_0000
}

/// The significand of a finite `f32`: the value is the significand times
/// 2^(e - 150), where e is the exponent field, or 1 for subnormals.
pub open spec fn f32_significand(bits: u32) -> nat {
    if f32_exponent(bits) == 0 {
        f32_fraction(bits)
    } else {
        f32_fraction(bits) + 0x80_0000
    }
}

/// The scale exponent of a finite `f32` (the biased exponent, 1 for subnormals).
pub open spec fn f32_scale(bits: u32) -> nat {
    if f32_exponent(bits) == 0 {
        1
    } else {
        f32_exponent(bits)
    }
}

/// The magnitude of a finite `f32` in tenths, rounded to nearest, ties to even.
pub open spec fn f32_tenths(bits: u32) -> nat {
    let m = f32_significand(bits);
    let e = f32_scale(bits);
    if e >= 150 {
        m * two_pow((e - 150) as nat) * 10
    } else {
        round_half_even(m * 10, two_pow((150 - e) as nat))
    }
}

/// The text of an `f32` with one decimal: `NaN`, `inf`, `-inf`, or an optional
/// minus sign (for every value with the sign bit, zero included), the whole
/// part, a point and the tenths.
pub open spec fn f32_one_decimal_text(bits: u32) -> Seq<char> {
    if f32_exponent(bits) == 0xFF {
        if f32_fraction(bits) != 0 {
            seq!['N', 'a', 'N']
        } else if f32_negative(bits) {
            seq!['-', 'i', 'n', 'f']
        } else {
            seq!['i', 'n', 'f']
        }
    } else {
        let t = f32_tenths(bits);
        let digits = decimal(t / 10) + seq!['.', digit_char(t % 10)];
        if f32_negative(bits) {
            seq!['-'] + digits
        } else {
            digits
        }
    }
}

/// `m * 2^n`.
fn shift_up(m: u128, n: u32) -> (r: u128)
    requires
        m < 0x100_0000,
        n <= 104,
    ensures
        r == m * two_pow(n as nat),
{
    let mut r = m;
    let mut i: u32 = 0;
    assert(two_pow(0) == 1);
    while i < n
        invariant
            i <= n <= 104,
            m < 0x100_0000,
            r == m * two_pow(i as nat),
        decreases n - i,
    {
        proof {
            lemma_two_pow_monotonic(i as nat, 103);
            lemma_two_pow_103();
            assert(m * two_pow((i + 1) as nat) == 2 * (m * two_pow(i as nat))) by (
            nonlinear_arith);
            assert(m * two_pow(i as nat) < 0x100_0000 * 0x80_0000_0000_0000_0000_0000_0000)
                by (nonlinear_arith)
                requires
                    m < 0x100_0000,
                    two_pow(i as nat) <= 0x80_0000_0000_0000_0000_0000_0000,
            ;
        }
        r = r * 2;
        i = i + 1;
    }
    r
}

/// Exponents add when powers of two multiply.
pub proof fn lemma_two_pow_add(a: nat, b: nat)
    ensures
        two_pow(a + b) == two_pow(a) * two_pow(b),
    decreases a,
{
    if a > 0 {
        lemma_two_pow_add((a - 1) as nat, b);
        assert(two_pow(a + b) == 2 * two_pow((a - 1 + b) as nat));
        assert(2 * (two_pow((a - 1) as nat) * two_pow(b)) == (2 * two_pow((a - 1) as nat))
            * two_pow(b)) by (nonlinear_arith);
        assert((a - 1 + b) as nat == (a - 1) as nat + b);
    } else {
        assert(two_pow(0) == 1);
        assert(a + b == b);
    }
}

/// 2^16.
proof fn lemma_two_pow_16()
    ensures
        two_pow(16) == 0x1_0000,
{
    reveal_with_fuel(two_pow, 17);
}

/// 2^28.
proof fn lemma_two_pow_28()
    ensures
        two_pow(28) == 0x1000_0000,
{
    lemma_two_pow_16();
    reveal_with_fuel(two_pow, 13);
    assert(two_pow(12) == 0x1000);
    lemma_two_pow_add(16, 12);
}

/// 2^103.
proof fn lemma_two_pow_103()
    ensures
        two_pow(103) == 0x80_0000_0000_0000_0000_0000_0000,
{
    lemma_two_pow_28();
    lemma_two_pow_16();
    lemma_two_pow_add(28, 28);
    lemma_two_pow_add(56, 28);
    lemma_two_pow_add(84, 16);
    reveal_with_fuel(two_pow, 4);
    assert(two_pow(3) == 8);
    lemma_two_pow_add(100, 3);
}

/// 2^n for n below 29, as an integer.
fn small_two_pow(n: u32) -> (p: u128)
    requires
        n < 29,
    ensures
        p == two_pow(n as nat),
        0 < p <= 0x1000_0000,
{
    let mut p: u128 = 1;
    let mut i: u32 = 0;
    proof {
        lemma_two_pow_28();
        lemma_two_pow_monotonic(0, 28);
    }
    while i < n
        invariant
            i <= n < 29,
            p == two_pow(i as nat),
            0 < p <= two_pow(28),
        decreases n - i,
    {
        proof {
            lemma_two_pow_monotonic((i + 1) as nat, 28);
            lemma_two_pow_28();
        }
        p = p * 2;
        i = i + 1;
    }
    proof {
        lemma_two_pow_28();
    }
    p
}

/// Appends the text of an `f32`, given by its bits, with one decimal.
pub fn push_f32_one_decimal(s: &mut String, bits: u32)
    ensures
        final(s)@ == old(s)@ + f32_one_decimal_text(bits),
{
    let negative = bits >= 0x8000_0000;
    let exponent = (bits / 0x80_0000) % 0x100;
    let fraction = bits % 0x80_0000;
    if exponent == 0xFF {
        if fraction != 0 {
            push_str(s, "NaN");
            proof {
                reveal_strlit("NaN");
            }
        } else if negative {
            push_str(s, "-inf");
            proof {
                reveal_strlit("-inf");
            }
        } else {
            push_str(s, "inf");
            proof {
                reveal_strlit("inf");
            }
        }
        assert(final(s)@ =~= old(s)@ + f32_one_decimal_text(bits));
        return ;
    }
    if negative {
        push_char(s, '-');
    }
    let ghost signed = s@;
    let m: u128 = if exponent == 0 {
        fraction as u128
    } else {
        fraction as u128 + 0x80_0000
    };
    let e: u32 = if exponent == 0 {
        1
    } else {
        exponent
    };
    if e >= 150 {
        let whole = shift_up(m, e - 150);
        push_decimal(s, whole);
        push_char(s, '.');
        push_char(s, '0');
        proof {
            let t = f32_tenths(bits);
            assert(t == whole * 10);
            assert(t / 10 == whole);
            assert(t % 10 == 0);
        }
    } else {
        let shift = 150 - e;
        let t: u128 = if shift >= 29 {
            proof {
                lemma_two_pow_monotonic(29, shift as nat);
                lemma_two_pow_28();
                assert(two_pow(29) == 2 * two_pow(28));
                let d = two_pow(shift as nat);
                assert(m * 10 < d);
                assert((m * 10) as nat / d == 0) by (nonlinear_arith)
                    requires
                        m * 10 < d,
                ;
                assert((m * 10) as nat % d == m * 10) by (nonlinear_arith)
                    requires
                        m * 10 < d,
                ;
            }
            0
        } else {
            let d = small_two_pow(shift);
            div_round_half_even(m * 10, d)
        };
        assert(t == f32_tenths(bits));
        push_decimal(s, t / 10);
        push_char(s, '.');
        push_char(s, digit((t % 10) as u8));
    }
    assert(final(s)@ =~= old(s)@ + f32_one_decimal_text(bits));
}

// ----- readings of the host -----

/// A reading of the host and of the bot's own process.
#[derive(Debug, Clone, Copy, PartialEq, Eq)]
pub struct StatusSnapshot {
    /// The global CPU load in percent, as the bit pattern of an `f32`.
    pub cpu_bits: u32,
    /// The RAM size in bytes.
    pub total_ram: u64,
    /// The used RAM in bytes.
    pub used_ram: u64,
    /// The bot's resident memory in bytes (0 when its process was not found).
    pub bot_ram: u64,
}

impl StatusSnapshot {
    /// A snapshot from its readings; a process that was not found counts as 0 bytes.
    pub fn from_readings(cpu_bits: u32, total_ram: u64, used_ram: u64, bot_ram: Option<u64>) -> (s: StatusSnapshot)
        ensures
            s == (StatusSnapshot {
                cpu_bits,
                total_ram,
                used_ram,
                bot_ram: match bot_ram {
                    Some(b) => b,
                    None => 0,
                },
            }),
    {
        let bot = match bot_ram {
            Some(b) => b,
            None => 0,
        };
        StatusSnapshot { cpu_bits, total_ram, used_ram, bot_ram: bot }
    }
}

} // verus!
