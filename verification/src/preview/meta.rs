//! File metadata: what is shown with a preview, human-readable sizes and
//! durations.
use vstd::prelude::*;
use vstd::arithmetic::div_mod::lemma_div_denominator;
use vstd::arithmetic::div_mod::lemma_fundamental_div_mod;
use vstd::arithmetic::mul::lemma_mul_is_associative;
use crate::preview::{guess_mime, mime_of, FileMeta};
use crate::textfmt::{decimal, decimal2, digit_char, digit_to_char, push_char, push_decimal, push_decimal2};

verus! {

/// The metadata of a file given its path, its size and its modification
/// time (the caller reads them, giving 0 and the epoch when it cannot): the
/// MIME type guessed from the path, and no dimensions.
pub fn file_meta(path: &str, size: u64, mtime: std::time::SystemTime) -> (res: FileMeta)
    ensures
        res.size == size,
        res.mtime == mtime,
        res.mime@ == mime_of(path@),
        res.dims is None,
{
    FileMeta { size, mtime, mime: guess_mime(path), dims: None }
}

// ---------------------------------------------------------------------------
// Sizes. A size is converted to `f64`, divided by 1024 while it is at least
// 1024 and a larger unit exists, and printed with one decimal (`{:.1}`); in
// the smallest unit the integer itself is printed.
// ---------------------------------------------------------------------------

/// 2^53: below it every integer is exactly an `f64`.
pub open spec fn two_pow_53() -> nat { 0x20_0000_0000_0000 }

/// The spacing of `f64` values around `b`: 1 below 2^53, doubling with each
/// further binary digit of `b`.
pub open spec fn f64_ulp(b: nat) -> nat
    decreases b,
{
    if b < two_pow_53() { 1 } else { 2 * f64_ulp(b / 2) }
}

/// The value of `b as f64`: `b` rounded to the nearest multiple of its
/// spacing, ties going to the even multiple.
pub open spec fn f64_value(b: nat) -> nat {
    let p = f64_ulp(b);
    let m = b / p;
    let r = b % p;
    if p == 1 {
        b
    } else if r > p / 2 || (r == p / 2 && m % 2 == 1) {
        (m + 1) * p
    } else {
        m * p
    }
}

/// 1024 to the power `u`, for the units in use.
pub open spec fn unit_scale(u: nat) -> nat {
    if u == 0 { 1 }
    else if u == 1 { 1024 }
    else if u == 2 { 1048576 }
    else if u == 3 { 1073741824 }
    else { 1099511627776 }
}

/// The name of unit `u`.
pub open spec fn unit_name(u: nat) -> Seq<char> {
    if u == 0 { seq!['B'] }
    else if u == 1 { seq!['K', 'B'] }
    else if u == 2 { seq!['M', 'B'] }
    else if u == 3 { seq!['G', 'B'] }
    else { seq!['T', 'B'] }
}

/// The unit that the division loop stops at, started at unit `u`, for a
/// value `x` (the loop divides while the quotient is at least 1024 and a
/// larger unit than `u` exists up to `max_unit`).
pub open spec fn size_unit_from(x: nat, u: nat, max_unit: nat) -> nat
    decreases max_unit - u,
{
    if u < max_unit && x >= unit_scale(u + 1) {
        size_unit_from(x, u + 1, max_unit)
    } else {
        u
    }
}

/// `x / d` printed with one decimal as `{:.1}` prints it: the tenths are
/// rounded to nearest, ties to an even last digit.
pub open spec fn one_decimal(x: nat, d: nat) -> Seq<char> {
    let t = 10 * x;
    let q = t / d;
    let r = t % d;
    let n: nat = if r > d / 2 || (r == d / 2 && q % 2 == 1) { q + 1 } else { q };
    decimal(n / 10).push('.').push(digit_char(n % 10))
}

/// The human-readable size of `bytes` with units up to index `max_unit`.
pub open spec fn human_size_spec(bytes: nat, max_unit: nat) -> Seq<char> {
    let x = f64_value(bytes);
    let u = size_unit_from(x, 0, max_unit);
    if u == 0 {
        decimal(bytes) + seq![' ', 'B']
    } else {
        one_decimal(x, unit_scale(u)) + seq![' '] + unit_name(u)
    }
}

fn unit_scale_exec(u: usize) -> (r: u128)
    requires
        u <= 4,
    ensures
        r == unit_scale(u as nat),
{
    if u == 0 { 1 }
    else if u == 1 { 1024 }
    else if u == 2 { 1048576 }
    else if u == 3 { 1073741824 }
    else { 1099511627776 }
}

fn push_unit_name(s: &mut String, u: usize)
    requires
        u <= 4,
    ensures
        final(s)@ == old(s)@ + unit_name(u as nat),
{
    if u == 0 {
        push_char(s, 'B');
    } else {
        if u == 1 { push_char(s, 'K'); }
        else if u == 2 { push_char(s, 'M'); }
        else if u == 3 { push_char(s, 'G'); }
        else { push_char(s, 'T'); }
        push_char(s, 'B');
    }
    assert(final(s)@ =~= old(s)@ + unit_name(u as nat));
}

/// `b as f64`, as an exact integer.
fn f64_value_exec(b: u64) -> (x: u128)
    ensures
        x == f64_value(b as nat),
        x <= 2 * (b as nat),
{
    if b < 0x20_0000_0000_0000 {
        return b as u128;
    }
    let mut m: u128 = b as u128;
    let mut p: u128 = 1;
    while m >= 0x20_0000_0000_0000
        invariant
            p >= 1,
            m >= 1,
            m == (b as nat) / (p as nat),
            m * p <= b,
            f64_ulp(b as nat) == p * f64_ulp(m as nat),
        decreases m,
    {
        proof {
            lemma_div_denominator(b as int, p as int, 2);
            assert(f64_ulp(m as nat) == 2 * f64_ulp((m / 2) as nat));
            lemma_mul_is_associative(p as int, 2, f64_ulp((m / 2) as nat) as int);
            assert((m / 2) * (p * 2) == (2 * (m / 2)) * p) by (nonlinear_arith);
            assert((2 * (m / 2)) * p <= m * p) by (nonlinear_arith)
                requires 2 * (m / 2) <= m, p >= 1;
            assert(p <= m * p) by (nonlinear_arith) requires m >= 1, p >= 1;
            assert((p as nat) * 2 == p * 2);
            assert(m / 2 >= 1);
        }
        m = m / 2;
        p = p * 2;
    }
    assert(f64_ulp(m as nat) == 1);
    assert(p * 1 == p);
    assert(f64_ulp(b as nat) == p);
    let r = (b as u128) % p;
    proof {
        lemma_fundamental_div_mod(b as int, p as int);
        assert(p <= m * p) by (nonlinear_arith) requires m >= 1, p >= 1;
    }
    if r > p / 2 || (r == p / 2 && m % 2 == 1) {
        assert((m + 1) * p == m * p + p) by (nonlinear_arith);
        (m + 1) * p
    } else {
        m * p
    }
}

/// Shared implementation of the size formatters: units up to `max_unit`
/// (3 = GB, 4 = TB).
pub fn human_size_units(bytes: u64, max_unit: usize) -> (res: String)
    requires
        1 <= max_unit <= 4,
    ensures
        res@ == human_size_spec(bytes as nat, max_unit as nat),
{
    let x = f64_value_exec(bytes);
    let mut u: usize = 0;
    while u < max_unit && x >= unit_scale_exec(u + 1)
        invariant
            u <= max_unit <= 4,
            size_unit_from(x as nat, 0, max_unit as nat) == size_unit_from(x as nat, u as nat, max_unit as nat),
        decreases max_unit - u,
    {
        u = u + 1;
    }
    let mut s = String::new();
    if u == 0 {
        push_decimal(&mut s, bytes);
        push_char(&mut s, ' ');
        push_char(&mut s, 'B');
        assert(s@ =~= human_size_spec(bytes as nat, max_unit as nat));
        return s;
    }
    let d = unit_scale_exec(u);
    let t = 10 * x;
    let q = t / d;
    let r = t % d;
    let n: u128 = if r > d / 2 || (r == d / 2 && q % 2 == 1) { q + 1 } else { q };
    assert(n <= 0xffff_ffff_ffff_ffff) by {
        assert(q <= t / 1024) by {
            vstd::arithmetic::div_mod::lemma_div_is_ordered_by_denominator(t as int, 1024, d as int);
        }
    }
    push_decimal(&mut s, (n / 10) as u64);
    push_char(&mut s, '.');
    push_char(&mut s, digit_to_char((n % 10) as u64));
    push_char(&mut s, ' ');
    push_unit_name(&mut s, u);
    assert(s@ =~= human_size_spec(bytes as nat, max_unit as nat));
    s
}

/// The human-readable size with units B, KB, MB, GB and TB: below 1024 the
/// byte count itself ("512 B"), above it one decimal ("1.5 KB").
pub fn human_size(bytes: u64) -> (res: String)
    ensures
        res@ == human_size_spec(bytes as nat, 4),
{
    human_size_units(bytes, 4)
}

/// The `m:ss` rendering of a duration of `secs` seconds.
pub open spec fn duration_text(secs: nat) -> Seq<char> {
    decimal(secs / 60).push(':') + decimal2(secs % 60)
}

/// Renders a duration given in whole seconds as minutes and two-digit
/// seconds ("3:07").
pub fn format_duration(secs: u64) -> (res: String)
    ensures
        res@ == duration_text(secs as nat),
{
    let mut s = String::new();
    push_decimal(&mut s, secs / 60);
    push_char(&mut s, ':');
    push_decimal2(&mut s, secs % 60);
    assert(s@ =~= duration_text(secs as nat));
    s
}

/// The same rendering, under the name the audio view uses.
pub fn format_duration_str(secs: u64) -> (res: String)
    ensures
        res@ == duration_text(secs as nat),
{
    format_duration(secs)
}

// ---------------------------------------------------------------------------
// Modification times, as UTC dates
// ---------------------------------------------------------------------------

/// Whether `y` is a leap year of the Gregorian calendar.
pub open spec fn is_leap(y: nat) -> bool {
    y % 4 == 0 && (y % 100 != 0 || y % 400 == 0)
}

/// The days of year `y`.
pub open spec fn year_days(y: nat) -> nat {
    if is_leap(y) { 366 } else { 365 }
}

/// The days of month `m` (1 to 12) of year `y`.
pub open spec fn month_days(y: nat, m: nat) -> nat {
    if m == 2 { if is_leap(y) { 29 } else { 28 } }
    else if m == 4 || m == 6 || m == 9 || m == 11 { 30 }
    else { 31 }
}

/// The year and the day within it (from 0) that lie `days` days after the
/// first day of year `y`.
pub open spec fn civil_year(days: nat, y: nat) -> (nat, nat)
    decreases days,
{
    if days < year_days(y) { (y, days) } else { civil_year((days - year_days(y)) as nat, y + 1) }
}

/// The month (from `m`) and the day within it (from 0) of day `d` of year
/// `y`, counting from the first day of month `m`.
pub open spec fn civil_month(d: nat, y: nat, m: nat) -> (nat, nat)
    decreases 12 - m,
{
    if m >= 12 || d < month_days(y, m) { (m, d) } else { civil_month((d - month_days(y, m)) as nat, y, m + 1) }
}

/// The first second of the year 10000: later times are shown as seconds.
pub open spec fn year_10000() -> nat { 253402300800 }

/// A time given in seconds since 1970-01-01 00:00:00 UTC, as
/// "YYYY-MM-DD HH:MM:SS UTC" (before the year 10000).
pub open spec fn utc_text(secs: nat) -> Seq<char> {
    let days = secs / 86400;
    let rem = secs % 86400;
    let (y, yd) = civil_year(days, 1970);
    let (m, md) = civil_month(yd, y, 1);
    decimal(y) + "-"@ + decimal2(m) + "-"@ + decimal2(md + 1) + " "@ + decimal2(rem / 3600) + ":"@
        + decimal2((rem % 3600) / 60) + ":"@ + decimal2(rem % 60) + " UTC"@
}

/// How a modification time is shown: its UTC date and time, the seconds
/// since 1970 for times from the year 10000 on, or "unknown".
pub open spec fn mtime_text(secs: Option<u64>) -> Seq<char> {
    match secs {
        None => "unknown"@,
        Some(s) => if s < year_10000() { utc_text(s as nat) } else { decimal(s as nat) + " s after 1970-01-01 00:00:00 UTC"@ },
    }
}

fn leap(y: u64) -> (res: bool)
    ensures
        res == is_leap(y as nat),
{
    y % 4 == 0 && (y % 100 != 0 || y % 400 == 0)
}

/// Renders a modification time given in seconds since 1970 (`None` when
/// unknown).
pub fn format_mtime(secs: Option<u64>) -> (res: String)
    ensures
        res@ == mtime_text(secs),
{
    match secs {
        None => String::from_str("unknown"),
        Some(s) => {
            if s >= 253402300800 {
                let mut out = String::new();
                push_decimal(&mut out, s);
                out.append(" s after 1970-01-01 00:00:00 UTC");
                return out;
            }
            let days: u64 = s / 86400;
            let rem: u64 = s % 86400;
            let mut d: u64 = days;
            let mut y: u64 = 1970;
            while d >= year_len(y)
                invariant
                    civil_year(d as nat, y as nat) == civil_year(days as nat, 1970),
                    1970 <= y,
                    y - 1970 + d <= days,
                    d <= days,
                    days < 3000000,
                decreases d,
            {
                d = d - year_len(y);
                y = y + 1;
            }
            let mut m: u64 = 1;
            while m < 12 && d >= month_len(y, m)
                invariant
                    1 <= m <= 12,
                    civil_month(d as nat, y as nat, m as nat) == civil_month(civil_year(days as nat, 1970).1, civil_year(days as nat, 1970).0, 1),
                    y == civil_year(days as nat, 1970).0,
                    d < 366,
                decreases 12 - m,
            {
                d = d - month_len(y, m);
                m = m + 1;
            }
            let mut out = String::new();
            push_decimal(&mut out, y);
            out.append("-");
            push_decimal2(&mut out, m);
            out.append("-");
            push_decimal2(&mut out, d + 1);
            out.append(" ");
            push_decimal2(&mut out, rem / 3600);
            out.append(":");
            push_decimal2(&mut out, (rem % 3600) / 60);
            out.append(":");
            push_decimal2(&mut out, rem % 60);
            out.append(" UTC");
            assert(out@ =~= utc_text(s as nat));
            out
        }
    }
}

fn year_len(y: u64) -> (res: u64)
    ensures
        res == year_days(y as nat),
{
    if leap(y) { 366 } else { 365 }
}

fn month_len(y: u64, m: u64) -> (res: u64)
    ensures
        res == month_days(y as nat, m as nat),
{
    if m == 2 { if leap(y) { 29 } else { 28 } }
    else if m == 4 || m == 6 || m == 9 || m == 11 { 30 }
    else { 31 }
}

} // verus!
