//! File information and its display: human-readable sizes, dimensions and
//! calendar timestamps.

use vstd::prelude::*;
use exif::{Context, In, Reader, Tag, Value};
use std::io::Cursor;
use crate::config::owned;
use crate::path::{file_name, file_name_of, string_from_chars};
use crate::text::{decimal, digit_char, push_char, push_decimal, push_str, push_zero_padded, trim, trimmed, zero_padded, leading_white, trailing_white};

verus! {

/// `num / den` rounded to the nearest integer, ties going to the even one.
pub open spec fn round_half_even(num: nat, den: nat) -> nat {
    let q = num / den;
    let r = num % den;
    if 2 * r > den || (2 * r == den && q % 2 == 1) {
        q + 1
    } else {
        q
    }
}

/// The distance between neighbouring 64-bit floating-point numbers around `n`
/// (they are exact up to 2^53, and twice as far apart with each further bit).
pub open spec fn f64_spacing(n: nat) -> nat
    decreases n,
{
    if n < 0x20_0000_0000_0000 {
        1
    } else {
        2 * f64_spacing(n / 2)
    }
}

/// The value of `n as f64`: `n` rounded to the nearest representable number, ties to even.
pub open spec fn f64_of(n: nat) -> nat {
    round_half_even(n, f64_spacing(n)) * f64_spacing(n)
}

/// A count of tenths written with one decimal, e.g. `15` as `1.5`.
pub open spec fn one_decimal(tenths: nat) -> Seq<char> {
    decimal(tenths / 10) + seq!['.', digit_char(tenths % 10)]
}

/// The number of tenths of `unit` in `bytes` as shown with one decimal: the
/// floating-point value of `bytes` divided by `unit`, rounded half to even.
pub open spec fn tenths_of(bytes: nat, unit: nat) -> nat {
    round_half_even(10 * f64_of(bytes), unit)
}

/// A byte count as text: in gigabytes, megabytes or kilobytes (powers of 1024) with one
/// decimal, from the largest unit that it reaches, else in bytes.
pub open spec fn size_text(bytes: u64) -> Seq<char> {
    if bytes >= 0x4000_0000 {
        one_decimal(tenths_of(bytes as nat, 0x4000_0000)) + " GB"@
    } else if bytes >= 0x10_0000 {
        one_decimal(tenths_of(bytes as nat, 0x10_0000)) + " MB"@
    } else if bytes >= 0x400 {
        one_decimal(tenths_of(bytes as nat, 0x400)) + " KB"@
    } else {
        decimal(bytes as nat) + " B"@
    }
}

/// The spacing is a positive power of two, and at most `n` once above one.
proof fn lemma_f64_spacing(n: nat)
    ensures
        f64_spacing(n) >= 1,
        f64_spacing(n) > 1 ==> f64_spacing(n) <= n,
        n < 0x20_0000_0000_0000 ==> f64_spacing(n) == 1,
    decreases n,
{
    if n >= 0x20_0000_0000_0000 {
        lemma_f64_spacing(n / 2);
    }
}

/// `round_half_even` computed on machine integers.
fn round_half_even_u128(num: u128, den: u128) -> (r: u128)
    requires
        den > 0,
    ensures
        r == round_half_even(num as nat, den as nat),
        r <= num / den + 1,
{
    let q = num / den;
    let rem = num % den;
    let other = den - rem;
    if rem > other || (rem == other && q % 2 == 1) {
        assert(q < u128::MAX) by (nonlinear_arith)
            requires
                q == num / den,
                rem == num % den,
                rem > 0 || den > 1,
                den > 0,
        {
            if den > 1 {
                assert(q <= num / 2) by {
                    vstd::arithmetic::div_mod::lemma_div_is_ordered_by_denominator(num as int, 2, den as int);
                }
            }
        }
        q + 1
    } else {
        q
    }
}

/// The floating-point value of `n` (see `f64_of`).
fn f64_rounded(n: u64) -> (r: u128)
    ensures
        r == f64_of(n as nat),
        r <= 2 * n + 1,
{
    let mut p: u128 = 1;
    let mut m: u128 = n as u128;
    proof { lemma_f64_spacing(n as nat); }
    while m >= 0x20_0000_0000_0000
        invariant
            p >= 1,
            m == (n as nat) / (p as nat),
            f64_spacing(n as nat) == p * f64_spacing(m as nat),
            p <= 0x1_0000_0000_0000_0000,
            m * p <= n,
        decreases m,
    {
        let ghost old_m = m;
        let ghost old_p = p;
        proof {
            vstd::arithmetic::div_mod::lemma_div_denominator(n as int, p as int, 2);
            assert(f64_spacing(m as nat) == 2 * f64_spacing((m / 2) as nat));
            assert(p * (2 * f64_spacing((m / 2) as nat)) == (p * 2) * f64_spacing((m / 2) as nat)) by (nonlinear_arith);
            assert(2 * p <= 0x1_0000_0000_0000_0000) by (nonlinear_arith)
                requires m * p <= n, m >= 0x20_0000_0000_0000, n <= u64::MAX;
            assert((m / 2) * (p * 2) <= m * p) by (nonlinear_arith);
        }
        m = m / 2;
        p = p * 2;
    }
    proof {
        lemma_f64_spacing(m as nat);
        assert(f64_spacing(m as nat) == 1);
        let sp = f64_spacing(m as nat);
        assert(sp == 1);
        assert(p * sp == p) by (nonlinear_arith) requires sp == 1;
        assert(f64_spacing(n as nat) == p);
        vstd::arithmetic::div_mod::lemma_fundamental_div_mod(n as int, p as int);
    }
    let k = round_half_even_u128(n as u128, p);
    assert(k * p <= 2 * n + 1) by (nonlinear_arith)
        requires
            k <= (n as nat) / (p as nat) + 1,
            p >= 1,
            p == 1 || p <= n,
            ((n as nat) / (p as nat)) * p <= n,
    ;
    k * p
}

/// The number of tenths shown for `bytes` in `unit` (see `tenths_of`).
fn tenths(bytes: u64, unit: u128) -> (r: u128)
    requires
        unit >= 0x400,
    ensures
        r == tenths_of(bytes as nat, unit as nat),
        r / 10 <= u64::MAX,
{
    let f = f64_rounded(bytes);
    let t = round_half_even_u128(10 * f, unit);
    assert(t / 10 <= u64::MAX) by (nonlinear_arith)
        requires
            t <= ((10 * f) as int) / (unit as int) + 1,
            f <= 2 * bytes + 1,
            bytes <= u64::MAX,
            unit >= 0x400,
    {
        vstd::arithmetic::div_mod::lemma_div_is_ordered_by_denominator((10 * f) as int, 0x400, unit as int);
    }
    t
}

/// Appends a count of tenths with one decimal (see `one_decimal`).
fn push_one_decimal(s: &mut String, t: u128)
    requires
        t / 10 <= u64::MAX,
    ensures
        final(s)@ == old(s)@ + one_decimal(t as nat),
{
    push_decimal(s, (t / 10) as u64);
    push_char(s, '.');
    let d: u8 = (t % 10) as u8;
    push_char(s, (d + 48u8) as char);
    assert(final(s)@ =~= old(s)@ + one_decimal(t as nat));
}

/// Format byte count as human-readable file size.
pub fn format_file_size(bytes: u64) -> (r: String)
    ensures
        r@ == size_text(bytes),
{
    let mut s = String::new();
    if bytes >= 0x4000_0000 {
        let t = tenths(bytes, 0x4000_0000);
        push_one_decimal(&mut s, t);
        push_str(&mut s, " GB");
    } else if bytes >= 0x10_0000 {
        let t = tenths(bytes, 0x10_0000);
        push_one_decimal(&mut s, t);
        push_str(&mut s, " MB");
    } else if bytes >= 0x400 {
        let t = tenths(bytes, 0x400);
        push_one_decimal(&mut s, t);
        push_str(&mut s, " KB");
    } else {
        push_decimal(&mut s, bytes);
        push_str(&mut s, " B");
    }
    s
}

/// The first of `from`, `2 * from`, `4 * from`, ... that scales `num / den` to at least
/// 2^52: with it, the quotient carries the 53 significant bits of a 64-bit float.
pub open spec fn ratio_scale(num: nat, den: nat, from: nat) -> nat
    decreases 0x1_0000_0000_0000_0000_0000_0000 - from,
{
    if from == 0 || from >= 0x8000_0000_0000_0000_0000_0000 || num * from >= 0x10_0000_0000_0000 * den {
        from
    } else {
        ratio_scale(num, den, 2 * from)
    }
}

/// The number of tenths shown for the floating-point quotient `num / den`: the quotient
/// rounded to 53 significant bits (ties to even), then to tenths (ties to even).
pub open spec fn ratio_tenths(num: nat, den: nat) -> nat {
    let p = ratio_scale(num, den, 1);
    round_half_even(10 * round_half_even(num * p, den), p)
}

/// The quotient of two 32-bit counts as a 64-bit float shows it with one decimal:
/// `inf` for a positive count over zero and `NaN` for zero over zero.
pub open spec fn ratio_text(num: u32, den: u32) -> Seq<char> {
    if den == 0 {
        if num == 0 { "NaN"@ } else { "inf"@ }
    } else {
        one_decimal(ratio_tenths(num as nat, den as nat))
    }
}

/// The tenths shown for `num / den` (see `ratio_tenths`).
fn quotient_tenths(num: u32, den: u32) -> (r: u128)
    requires
        den > 0,
    ensures
        r == ratio_tenths(num as nat, den as nat),
        r / 10 <= u64::MAX,
{
    if num == 0 {
        proof {
            let p = ratio_scale(0, den as nat, 1);
            assert(ratio_scale(0, den as nat, 1) == ratio_scale(0, den as nat, 2));
            assert(p >= 1) by {
                lemma_ratio_scale_at_least(0, den as nat, 1);
            }
            assert(round_half_even(0, den as nat) == 0) by (nonlinear_arith) requires den > 0;
            assert(round_half_even(0, p) == 0) by (nonlinear_arith) requires p >= 1;
        }
        return 0;
    }
    let target: u128 = 0x10_0000_0000_0000u128 * (den as u128);
    let mut m: u128 = num as u128;
    let mut p: u128 = 1;
    while m < target
        invariant
            target == 0x10_0000_0000_0000 * den,
            1 <= num,
            0 < den <= u32::MAX,
            m == num * p,
            1 <= p <= m,
            m < 2 * target,
            ratio_scale(num as nat, den as nat, p as nat) == ratio_scale(num as nat, den as nat, 1),
        decreases 2 * target - m,
    {
        assert(p < 0x8000_0000_0000_0000_0000_0000);
        assert(ratio_scale(num as nat, den as nat, p as nat) == ratio_scale(num as nat, den as nat, (2 * p) as nat));
        assert(2 * m == num * (2 * p)) by (nonlinear_arith) requires m == num * p;
        m = 2 * m;
        p = 2 * p;
    }
    assert(ratio_scale(num as nat, den as nat, p as nat) == p as nat);
    let big = round_half_even_u128(m, den as u128);
    assert(big <= 0x20_0000_0000_0001) by (nonlinear_arith)
        requires
            big <= (m as int) / (den as int) + 1,
            m < 0x20_0000_0000_0000 * den,
            den > 0,
    ;
    let t = round_half_even_u128(10 * big, p);
    assert(t / 10 <= u64::MAX) by (nonlinear_arith)
        requires
            t <= ((10 * big) as int) / (p as int) + 1,
            big <= 0x20_0000_0000_0001,
            p >= 1,
    {
        vstd::arithmetic::div_mod::lemma_div_is_ordered_by_denominator((10 * big) as int, 1, p as int);
    }
    t
}

/// The scale never drops below where it starts.
proof fn lemma_ratio_scale_at_least(num: nat, den: nat, from: nat)
    ensures
        ratio_scale(num, den, from) >= from,
    decreases 0x1_0000_0000_0000_0000_0000_0000 - from,
{
    if !(from == 0 || from >= 0x8000_0000_0000_0000_0000_0000 || num * from >= 0x10_0000_0000_0000 * den) {
        lemma_ratio_scale_at_least(num, den, 2 * from);
    }
}

/// Appends `num / den`, as a 64-bit float, with one decimal (see `ratio_text`).
fn push_ratio(s: &mut String, num: u32, den: u32)
    ensures
        final(s)@ == old(s)@ + ratio_text(num, den),
{
    if den == 0 {
        if num == 0 {
            push_str(s, "NaN");
        } else {
            push_str(s, "inf");
        }
    } else {
        let t = quotient_tenths(num, den);
        push_one_decimal(s, t);
    }
}

/// The exposure time `num / den` seconds as shown: a whole fraction `1/N s` below one
/// second (`N` rounded down), else the seconds with one decimal; none for a zero
/// denominator.
pub open spec fn shutter_text(num: u32, den: u32) -> Option<Seq<char>> {
    if den == 0 {
        None
    } else if num == 0 {
        Some("0 s"@)
    } else if num >= den {
        Some(ratio_text(num, den) + " s"@)
    } else {
        Some("1/"@ + decimal((den / num) as nat) + " s"@)
    }
}

/// Format shutter speed from an exposure time of `num / den` seconds.
pub fn shutter_speed(num: u32, den: u32) -> (r: Option<String>)
    ensures
        r is Some <==> shutter_text(num, den) is Some,
        r matches Some(s) ==> Some(s@) == shutter_text(num, den),
{
    if den == 0 {
        return None;
    }
    let mut s = String::new();
    if num == 0 {
        push_str(&mut s, "0 s");
    } else if num >= den {
        push_ratio(&mut s, num, den);
        push_str(&mut s, " s");
    } else {
        push_str(&mut s, "1/");
        push_decimal(&mut s, (den / num) as u64);
        push_str(&mut s, " s");
    }
    Some(s)
}

/// Whether a year of the proleptic Gregorian calendar has 366 days.
pub open spec fn leap(y: nat) -> bool {
    (y % 4 == 0 && y % 100 != 0) || y % 400 == 0
}

/// The number of days of a year.
pub open spec fn days_in_year(y: nat) -> nat {
    if leap(y) { 366 } else { 365 }
}

/// The number of days of month `m` (1 to 12) of year `y`.
pub open spec fn month_len(y: nat, m: nat) -> nat {
    if m == 2 {
        if leap(y) { 29 } else { 28 }
    } else if m == 4 || m == 6 || m == 9 || m == 11 {
        30
    } else {
        31
    }
}

/// The number of days from 1970-01-01 to the first day of year `y`.
pub open spec fn days_before_year(y: nat) -> nat
    decreases y,
{
    if y <= 1970 { 0 } else { days_before_year((y - 1) as nat) + days_in_year((y - 1) as nat) }
}

/// The number of days in year `y` before the first day of month `m`.
pub open spec fn days_before_month(y: nat, m: nat) -> nat
    decreases m,
{
    if m <= 1 { 0 } else { days_before_month(y, (m - 1) as nat) + month_len(y, (m - 1) as nat) }
}

/// `(y, m, d)` is a date on or after 1970-01-01 that lies `days` days after it.
pub open spec fn is_date_of(days: nat, y: nat, m: nat, d: nat) -> bool {
    &&& y >= 1970
    &&& 1 <= m <= 12
    &&& 1 <= d <= month_len(y, m)
    &&& days_before_year(y) + days_before_month(y, m) + d - 1 == days
}

/// The date that lies `days` days after 1970-01-01 (unique: see `lemma_date_unique`).
pub open spec fn date_of(days: nat) -> (nat, nat, nat) {
    choose|ymd: (nat, nat, nat)| is_date_of(days, ymd.0, ymd.1, ymd.2)
}

/// A unix time as `YYYY-MM-DD HH:MM:SS` (UTC), each field zero-padded.
pub open spec fn timestamp_text(unix_secs: nat) -> Seq<char> {
    let days = unix_secs / 86400;
    let t = unix_secs % 86400;
    let (y, m, d) = date_of(days);
    zero_padded(y, 4) + seq!['-'] + zero_padded(m, 2) + seq!['-'] + zero_padded(d, 2) + seq![' ']
        + zero_padded(t / 3600, 2) + seq![':'] + zero_padded((t % 3600) / 60, 2) + seq![':']
        + zero_padded(t % 60, 2)
}

/// The months of a year add up to the year.
proof fn lemma_months_fill_year(y: nat)
    ensures
        days_before_month(y, 13) == days_in_year(y),
        forall|m: nat| 1 <= m <= 12 ==> #[trigger] days_before_month(y, m) + month_len(y, m) <= days_in_year(y),
{
    reveal_with_fuel(days_before_month, 13);
}

/// Later months start later.
proof fn lemma_days_before_month_mono(y: nat, m1: nat, m2: nat)
    requires
        1 <= m1 < m2,
    ensures
        days_before_month(y, m1) + month_len(y, m1) <= days_before_month(y, m2),
    decreases m2,
{
    if m2 > m1 + 1 {
        lemma_days_before_month_mono(y, m1, (m2 - 1) as nat);
    }
}

/// Later years start later.
proof fn lemma_days_before_year_mono(y1: nat, y2: nat)
    requires
        1970 <= y1 < y2,
    ensures
        days_before_year(y1) + days_in_year(y1) <= days_before_year(y2),
    decreases y2,
{
    if y2 > y1 + 1 {
        lemma_days_before_year_mono(y1, (y2 - 1) as nat);
    }
}

/// Every day count has exactly one date.
pub proof fn lemma_date_unique(days: nat, y1: nat, m1: nat, d1: nat, y2: nat, m2: nat, d2: nat)
    requires
        is_date_of(days, y1, m1, d1),
        is_date_of(days, y2, m2, d2),
    ensures
        y1 == y2 && m1 == m2 && d1 == d2,
{
    lemma_months_fill_year(y1);
    lemma_months_fill_year(y2);
    if y1 < y2 {
        lemma_days_before_year_mono(y1, y2);
    } else if y2 < y1 {
        lemma_days_before_year_mono(y2, y1);
    } else {
        if m1 < m2 {
            lemma_days_before_month_mono(y1, m1, m2);
        } else if m2 < m1 {
            lemma_days_before_month_mono(y1, m2, m1);
        }
    }
}

/// Whether a year of the proleptic Gregorian calendar has 366 days.
pub fn is_leap_year(y: u64) -> (r: bool)
    ensures
        r == leap(y as nat),
{
    (y % 4 == 0 && y % 100 != 0) || y % 400 == 0
}

/// The number of days of month `m` of year `y`.
fn month_days(y: u64, m: u64) -> (r: u64)
    requires
        1 <= m <= 12,
    ensures
        r == month_len(y as nat, m as nat),
{
    if m == 2 {
        if is_leap_year(y) { 29 } else { 28 }
    } else if m == 4 || m == 6 || m == 9 || m == 11 {
        30
    } else {
        31
    }
}

/// Simple timestamp formatter (YYYY-MM-DD HH:MM:SS from unix seconds, UTC).
pub fn format_timestamp(unix_secs: u64) -> (r: String)
    ensures
        r@ == timestamp_text(unix_secs as nat),
{
    let secs_in_day: u64 = 86400;
    let total_days = unix_secs / secs_in_day;
    let mut days = total_days;
    let time_of_day = unix_secs % secs_in_day;
    let hours = time_of_day / 3600;
    let minutes = (time_of_day % 3600) / 60;
    let seconds = time_of_day % 60;

    // Days since 1970-01-01 to year, month and day.
    let mut year: u64 = 1970;
    loop
        invariant
            1970 <= year,
            days <= total_days,
            days_before_year(year as nat) + days == total_days,
            365 * (year - 1970) <= days_before_year(year as nat),
            total_days <= u64::MAX / 86400,
        ensures
            1970 <= year,
            days_before_year(year as nat) + days == total_days,
            days < days_in_year(year as nat),
        decreases days,
    {
        let days_in_year: u64 = if is_leap_year(year) { 366 } else { 365 };
        if days < days_in_year {
            break;
        }
        days = days - days_in_year;
        year = year + 1;
    }
    let ghost year_start = days;
    proof { lemma_months_fill_year(year as nat); }
    let mut month: u64 = 1;
    while month < 12 && days >= month_days(year, month)
        invariant
            1 <= month <= 12,
            days_before_month(year as nat, month as nat) + days == year_start,
            year_start < days_in_year(year as nat),
            days_before_month(year as nat, 13) == days_in_year(year as nat),
        decreases 12 - month,
    {
        days = days - month_days(year, month);
        month = month + 1;
    }
    proof {
        if days >= month_len(year as nat, month as nat) {
            assert(month == 12);
            assert(days_before_month(year as nat, 13) == days_before_month(year as nat, 12) + month_len(year as nat, 12));
        }
    }
    let day = days + 1;
    proof {
        let w: (nat, nat, nat) = (year as nat, month as nat, day as nat);
        assert(is_date_of(total_days as nat, w.0, w.1, w.2));
        let ymd = date_of(total_days as nat);
        lemma_date_unique(total_days as nat, year as nat, month as nat, day as nat, ymd.0, ymd.1, ymd.2);
    }

    let mut s = String::new();
    push_zero_padded(&mut s, year, 4);
    push_char(&mut s, '-');
    push_zero_padded(&mut s, month, 2);
    push_char(&mut s, '-');
    push_zero_padded(&mut s, day, 2);
    push_char(&mut s, ' ');
    push_zero_padded(&mut s, hours, 2);
    push_char(&mut s, ':');
    push_zero_padded(&mut s, minutes, 2);
    push_char(&mut s, ':');
    push_zero_padded(&mut s, seconds, 2);
    assert(s@ =~= timestamp_text(unix_secs as nat));
    s
}

/// File-level metadata that doesn't require EXIF (always available).
#[derive(Debug)]
pub struct FileInfo {
    /// File name.
    pub name: String,
    /// File size in bytes.
    pub size: u64,
    /// Last modified time (as string).
    pub modified: Option<String>,
    /// Image width from decoding.
    pub width: u32,
    /// Image height from decoding.
    pub height: u32,
    /// Image format name.
    pub format: String,
}

/// Image dimensions as `W x H`.
pub open spec fn dimensions_text(w: u32, h: u32) -> Seq<char> {
    decimal(w as nat) + " x "@ + decimal(h as nat)
}

/// The labelled lines that describe a file.
pub open spec fn file_info_lines(info: FileInfo) -> Seq<(Seq<char>, Seq<char>)> {
    let base = seq![
        ("File"@, info.name@),
        ("Size"@, size_text(info.size)),
        ("Dimensions"@, dimensions_text(info.width, info.height)),
        ("Format"@, info.format@),
    ];
    match info.modified {
        Some(m) => base.push(("Modified"@, m@)),
        None => base,
    }
}

/// The text of a sequence of labelled lines.
pub open spec fn lines_view(lines: Seq<(String, String)>) -> Seq<(Seq<char>, Seq<char>)> {
    Seq::new(lines.len(), |i: int| (lines[i].0@, lines[i].1@))
}

impl FileInfo {
    /// File information for an image at `path`, given its decoded dimensions and format
    /// and what the file system reports: its size, and its modification time in unix
    /// seconds when known.
    pub fn from_path(path: &str, width: u32, height: u32, format: &str, size: u64, modified_secs: Option<u64>) -> (r: Self)
        ensures
            r.name@ == (match file_name(path@) {
                Some(n) => n,
                None => "unknown"@,
            }),
            r.size == size,
            r.modified matches Some(m) ==> modified_secs matches Some(t) && m@ == timestamp_text(t as nat),
            r.modified is None ==> modified_secs is None,
            r.width == width,
            r.height == height,
            r.format@ == format@,
    {
        let name = match file_name_of(path) {
            Some(v) => string_from_chars(&v),
            None => owned("unknown"),
        };
        let modified = match modified_secs {
            Some(t) => Some(format_timestamp(t)),
            None => None,
        };
        FileInfo { name, size, modified, width, height, format: owned(format) }
    }

    /// Format file size as human-readable string.
    pub fn size_display(&self) -> (r: String)
        ensures
            r@ == size_text(self.size),
    {
        format_file_size(self.size)
    }

    /// Format dimensions as "W x H".
    pub fn dimensions_display(&self) -> (r: String)
        ensures
            r@ == dimensions_text(self.width, self.height),
    {
        let mut s = String::new();
        push_decimal(&mut s, self.width as u64);
        push_str(&mut s, " x ");
        push_decimal(&mut s, self.height as u64);
        s
    }

    /// Return display lines for file info overlay.
    pub fn display_lines(&self) -> (r: Vec<(String, String)>)
        ensures
            lines_view(r@) == file_info_lines(*self),
    {
        let mut lines: Vec<(String, String)> = Vec::new();
        lines.push((owned("File"), self.name.clone()));
        lines.push((owned("Size"), self.size_display()));
        lines.push((owned("Dimensions"), self.dimensions_display()));
        lines.push((owned("Format"), self.format.clone()));
        if let Some(modified) = &self.modified {
            lines.push((owned("Modified"), modified.clone()));
        }
        assert(lines_view(lines@) =~= file_info_lines(*self));
        lines
    }
}


/// The text held by an optional string.
pub open spec fn text_of(o: Option<String>) -> Option<Seq<char>> {
    match o {
        Some(s) => Some(s@),
        None => None,
    }
}

/// A textual EXIF value as kept: trimmed, and none where nothing is left.
pub open spec fn field_text(raw: Option<String>) -> Option<Seq<char>> {
    match raw {
        Some(s) => if trimmed(s@).len() == 0 { None } else { Some(trimmed(s@)) },
        None => None,
    }
}

/// A rational EXIF value as kept: its floating-point value with one decimal, between a
/// prefix and a suffix.
pub open spec fn ratio_field_text(o: Option<(u32, u32)>, prefix: Seq<char>, suffix: Seq<char>) -> Option<Seq<char>> {
    match o {
        Some((n, d)) => Some(prefix + ratio_text(n, d) + suffix),
        None => None,
    }
}

/// The exposure time as kept (see `shutter_text`).
pub open spec fn shutter_field_text(o: Option<(u32, u32)>) -> Option<Seq<char>> {
    match o {
        Some((n, d)) => shutter_text(n, d),
        None => None,
    }
}

/// What is read from an image's EXIF tags before it is formatted.
#[derive(Clone, Debug)]
pub struct ExifFields {
    /// Displayed value of the camera make tag.
    pub make: Option<String>,
    /// Displayed value of the camera model tag.
    pub model: Option<String>,
    /// Displayed value of the lens model tag.
    pub lens_model: Option<String>,
    /// First rational of the focal length tag, in mm.
    pub focal_length: Option<(u32, u32)>,
    /// First rational of the f-number tag.
    pub f_number: Option<(u32, u32)>,
    /// First rational of the exposure time tag, in seconds.
    pub exposure_time: Option<(u32, u32)>,
    /// Displayed value of the ISO sensitivity tag.
    pub iso: Option<String>,
    /// Displayed value of the original date/time tag.
    pub date_time_original: Option<String>,
    /// First value of the orientation tag.
    pub orientation: Option<u32>,
    /// The rationals (degrees, minutes, seconds) of the GPS latitude tag.
    pub gps_latitude: Option<Vec<(u32, u32)>>,
    /// Displayed value of the GPS latitude reference tag (`N` or `S`).
    pub gps_latitude_ref: Option<String>,
    /// The rationals (degrees, minutes, seconds) of the GPS longitude tag.
    pub gps_longitude: Option<Vec<(u32, u32)>>,
    /// Displayed value of the GPS longitude reference tag (`E` or `W`).
    pub gps_longitude_ref: Option<String>,
    /// Pixel X dimension tag.
    pub pixel_x_dimension: Option<u32>,
    /// Image width tag.
    pub image_width: Option<u32>,
    /// Pixel Y dimension tag.
    pub pixel_y_dimension: Option<u32>,
    /// Image length tag.
    pub image_length: Option<u32>,
    /// Displayed value of the software tag.
    pub software: Option<String>,
    /// Displayed value of the copyright tag.
    pub copyright: Option<String>,
    /// Displayed value of the exposure bias tag.
    pub exposure_bias: Option<String>,
    /// Displayed value of the white balance tag.
    pub white_balance: Option<String>,
    /// Displayed value of the flash tag.
    pub flash: Option<String>,
}

/// Extracted image metadata from EXIF tags.
#[derive(Clone, Debug)]
pub struct ImageMetadata {
    /// Camera make (e.g. "Canon", "Nikon").
    pub camera_make: Option<String>,
    /// Camera model (e.g. "EOS R5").
    pub camera_model: Option<String>,
    /// Lens model.
    pub lens_model: Option<String>,
    /// Focal length in mm (e.g. "50.0 mm").
    pub focal_length: Option<String>,
    /// Aperture (e.g. "f/2.8").
    pub aperture: Option<String>,
    /// Shutter speed (e.g. "1/250 s").
    pub shutter_speed: Option<String>,
    /// ISO sensitivity (e.g. "400").
    pub iso: Option<String>,
    /// Date/time the photo was taken.
    pub date_taken: Option<String>,
    /// Image orientation from EXIF.
    pub orientation: Option<u32>,
    /// GPS latitude in decimal degrees, with six decimals.
    pub gps_latitude: Option<String>,
    /// GPS longitude in decimal degrees, with six decimals.
    pub gps_longitude: Option<String>,
    /// Image width from EXIF (may differ from decoded).
    pub exif_width: Option<u32>,
    /// Image height from EXIF (may differ from decoded).
    pub exif_height: Option<u32>,
    /// Software used to create/edit.
    pub software: Option<String>,
    /// Copyright notice.
    pub copyright: Option<String>,
    /// Exposure compensation.
    pub exposure_compensation: Option<String>,
    /// White balance mode.
    pub white_balance: Option<String>,
    /// Flash status.
    pub flash: Option<String>,
}

/// The metadata that the EXIF readings `f` give, with the GPS coordinates as shown
/// (six decimals of their degrees, worked out from `f`'s GPS tags).
pub open spec fn metadata_of(
    m: ImageMetadata,
    f: ExifFields,
    gps_latitude: Option<Seq<char>>,
    gps_longitude: Option<Seq<char>>,
) -> bool {
    &&& text_of(m.camera_make) == field_text(f.make)
    &&& text_of(m.camera_model) == field_text(f.model)
    &&& text_of(m.lens_model) == field_text(f.lens_model)
    &&& text_of(m.focal_length) == ratio_field_text(f.focal_length, Seq::empty(), " mm"@)
    &&& text_of(m.aperture) == ratio_field_text(f.f_number, "f/"@, Seq::empty())
    &&& text_of(m.shutter_speed) == shutter_field_text(f.exposure_time)
    &&& text_of(m.iso) == text_of(f.iso)
    &&& text_of(m.date_taken) == field_text(f.date_time_original)
    &&& m.orientation == f.orientation
    &&& text_of(m.gps_latitude) == gps_latitude
    &&& text_of(m.gps_longitude) == gps_longitude
    &&& m.exif_width == (if f.pixel_x_dimension is Some { f.pixel_x_dimension } else { f.image_width })
    &&& m.exif_height == (if f.pixel_y_dimension is Some { f.pixel_y_dimension } else { f.image_length })
    &&& text_of(m.software) == field_text(f.software)
    &&& text_of(m.copyright) == field_text(f.copyright)
    &&& text_of(m.exposure_compensation) == field_text(f.exposure_bias)
    &&& text_of(m.white_balance) == text_of(f.white_balance)
    &&& text_of(m.flash) == text_of(f.flash)
}

/// Whether any field of a photo's metadata is populated.
pub open spec fn metadata_present(m: ImageMetadata) -> bool {
    ||| m.camera_make is Some
    ||| m.camera_model is Some
    ||| m.lens_model is Some
    ||| m.focal_length is Some
    ||| m.aperture is Some
    ||| m.shutter_speed is Some
    ||| m.iso is Some
    ||| m.date_taken is Some
    ||| m.orientation is Some
    ||| m.gps_latitude is Some
    ||| m.gps_longitude is Some
    ||| m.exif_width is Some
    ||| m.exif_height is Some
    ||| m.software is Some
    ||| m.copyright is Some
    ||| m.exposure_compensation is Some
    ||| m.white_balance is Some
    ||| m.flash is Some
}

/// One labelled line where the value is present.
pub open spec fn line_if(label: Seq<char>, v: Option<String>) -> Seq<(Seq<char>, Seq<char>)> {
    match v {
        Some(s) => seq![(label, s@)],
        None => Seq::empty(),
    }
}

/// The GPS line, where both coordinates are present.
pub open spec fn gps_line(lat: Option<String>, lon: Option<String>) -> Seq<(Seq<char>, Seq<char>)> {
    match (lat, lon) {
        (Some(a), Some(b)) => seq![("GPS"@, a@ + ", "@ + b@)],
        _ => Seq::empty(),
    }
}

/// The EXIF size line, where both dimensions are present.
pub open spec fn exif_size_line(w: Option<u32>, h: Option<u32>) -> Seq<(Seq<char>, Seq<char>)> {
    match (w, h) {
        (Some(a), Some(b)) => seq![("EXIF Size"@, dimensions_text(a, b))],
        _ => Seq::empty(),
    }
}

/// The labelled lines that show a photo's metadata, in display order.
pub open spec fn metadata_lines(m: ImageMetadata) -> Seq<(Seq<char>, Seq<char>)> {
    line_if("Make"@, m.camera_make) + line_if("Model"@, m.camera_model) + line_if("Lens"@, m.lens_model)
        + line_if("Focal Length"@, m.focal_length) + line_if("Aperture"@, m.aperture)
        + line_if("Shutter"@, m.shutter_speed) + line_if("ISO"@, m.iso) + line_if("Date"@, m.date_taken)
        + gps_line(m.gps_latitude, m.gps_longitude) + exif_size_line(m.exif_width, m.exif_height)
        + line_if("Software"@, m.software) + line_if("Copyright"@, m.copyright)
        + line_if("White Balance"@, m.white_balance) + line_if("Flash"@, m.flash)
}

/// A copy of an optional string.
fn copy_text(o: &Option<String>) -> (r: Option<String>)
    ensures
        text_of(r) == text_of(*o),
{
    match o {
        Some(s) => Some(s.clone()),
        None => None,
    }
}

/// A textual EXIF value, trimmed; none where nothing is left.
fn string_field(raw: &Option<String>) -> (r: Option<String>)
    ensures
        text_of(r) == field_text(*raw),
{
    match raw {
        Some(s) => {
            let t = trim(s.as_str());
            if t.as_str().is_empty() {
                None
            } else {
                Some(t)
            }
        },
        None => None,
    }
}

/// A rational EXIF value with one decimal, between a prefix and a suffix.
fn ratio_field(o: Option<(u32, u32)>, prefix: &str, suffix: &str) -> (r: Option<String>)
    ensures
        text_of(r) == ratio_field_text(o, prefix@, suffix@),
{
    match o {
        Some((n, d)) => {
            let mut s = String::new();
            push_str(&mut s, prefix);
            push_ratio(&mut s, n, d);
            push_str(&mut s, suffix);
            assert(s@ =~= prefix@ + ratio_text(n, d) + suffix@);
            Some(s)
        },
        None => None,
    }
}

/// Appends a labelled line where the value is present.
fn push_line_if(lines: &mut Vec<(String, String)>, label: &str, v: &Option<String>)
    ensures
        lines_view(final(lines)@) == lines_view(old(lines)@) + line_if(label@, *v),
{
    if let Some(s) = v {
        lines.push((owned(label), s.clone()));
    }
    assert(lines_view(final(lines)@) =~= lines_view(old(lines)@) + line_if(label@, *v));
}

impl Default for ImageMetadata {
    fn default() -> (r: Self)
        ensures
            r.camera_make is None && r.camera_model is None && r.lens_model is None,
            r.focal_length is None && r.aperture is None && r.shutter_speed is None,
            r.iso is None && r.date_taken is None && r.orientation is None,
            r.gps_latitude is None && r.gps_longitude is None,
            r.exif_width is None && r.exif_height is None,
            r.software is None && r.copyright is None && r.exposure_compensation is None,
            r.white_balance is None && r.flash is None,
    {
        ImageMetadata {
            camera_make: None,
            camera_model: None,
            lens_model: None,
            focal_length: None,
            aperture: None,
            shutter_speed: None,
            iso: None,
            date_taken: None,
            orientation: None,
            gps_latitude: None,
            gps_longitude: None,
            exif_width: None,
            exif_height: None,
            software: None,
            copyright: None,
            exposure_compensation: None,
            white_balance: None,
            flash: None,
        }
    }
}

impl ImageMetadata {
    /// The metadata of a photo from what was read of its EXIF tags: textual values
    /// trimmed (and dropped where empty), rationals shown with one decimal, and the
    /// EXIF size taken from the pixel dimension tags, else from the image size tags.
    /// The GPS coordinates come as shown, worked out from `f`'s GPS tags.
    pub fn from_exif_fields(f: &ExifFields, gps_latitude: Option<String>, gps_longitude: Option<String>) -> (r: Self)
        ensures
            metadata_of(r, *f, text_of(gps_latitude), text_of(gps_longitude)),
    {
        let exif_width = if f.pixel_x_dimension.is_some() { f.pixel_x_dimension } else { f.image_width };
        let exif_height = if f.pixel_y_dimension.is_some() { f.pixel_y_dimension } else { f.image_length };
        proof {
            reveal_strlit("");
        }
        let shutter = match f.exposure_time {
            Some((n, d)) => shutter_speed(n, d),
            None => None,
        };
        ImageMetadata {
            camera_make: string_field(&f.make),
            camera_model: string_field(&f.model),
            lens_model: string_field(&f.lens_model),
            focal_length: ratio_field(f.focal_length, "", " mm"),
            aperture: ratio_field(f.f_number, "f/", ""),
            shutter_speed: shutter,
            iso: copy_text(&f.iso),
            date_taken: string_field(&f.date_time_original),
            orientation: f.orientation,
            gps_latitude,
            gps_longitude,
            exif_width,
            exif_height,
            software: string_field(&f.software),
            copyright: string_field(&f.copyright),
            exposure_compensation: string_field(&f.exposure_bias),
            white_balance: copy_text(&f.white_balance),
            flash: copy_text(&f.flash),
        }
    }

    /// Format metadata as display lines for the info overlay.
    /// Returns pairs of (label, value).
    pub fn display_lines(&self) -> (r: Vec<(String, String)>)
        ensures
            lines_view(r@) == metadata_lines(*self),
    {
        let mut lines: Vec<(String, String)> = Vec::new();
        push_line_if(&mut lines, "Make", &self.camera_make);
        push_line_if(&mut lines, "Model", &self.camera_model);
        push_line_if(&mut lines, "Lens", &self.lens_model);
        push_line_if(&mut lines, "Focal Length", &self.focal_length);
        push_line_if(&mut lines, "Aperture", &self.aperture);
        push_line_if(&mut lines, "Shutter", &self.shutter_speed);
        push_line_if(&mut lines, "ISO", &self.iso);
        push_line_if(&mut lines, "Date", &self.date_taken);
        let ghost before_gps = lines_view(lines@);
        if let (Some(lat), Some(lon)) = (&self.gps_latitude, &self.gps_longitude) {
            let mut v = String::new();
            push_str(&mut v, lat.as_str());
            push_str(&mut v, ", ");
            push_str(&mut v, lon.as_str());
            lines.push((owned("GPS"), v));
        }
        assert(lines_view(lines@) =~= before_gps + gps_line(self.gps_latitude, self.gps_longitude));
        let ghost before_size = lines_view(lines@);
        if let (Some(w), Some(h)) = (self.exif_width, self.exif_height) {
            let mut v = String::new();
            push_decimal(&mut v, w as u64);
            push_str(&mut v, " x ");
            push_decimal(&mut v, h as u64);
            lines.push((owned("EXIF Size"), v));
        }
        assert(lines_view(lines@) =~= before_size + exif_size_line(self.exif_width, self.exif_height));
        push_line_if(&mut lines, "Software", &self.software);
        push_line_if(&mut lines, "Copyright", &self.copyright);
        push_line_if(&mut lines, "White Balance", &self.white_balance);
        push_line_if(&mut lines, "Flash", &self.flash);
        assert(lines_view(lines@) =~= metadata_lines(*self));
        lines
    }

    /// Returns true if any metadata field is populated.
    pub fn has_any(&self) -> (r: bool)
        ensures
            r == metadata_present(*self),
    {
        self.camera_make.is_some() || self.camera_model.is_some() || self.lens_model.is_some()
            || self.focal_length.is_some() || self.aperture.is_some() || self.shutter_speed.is_some()
            || self.iso.is_some() || self.date_taken.is_some() || self.orientation.is_some()
            || self.gps_latitude.is_some() || self.gps_longitude.is_some() || self.exif_width.is_some()
            || self.exif_height.is_some() || self.software.is_some() || self.copyright.is_some()
            || self.exposure_compensation.is_some() || self.white_balance.is_some()
            || self.flash.is_some()
    }
}


/// The directory (IFD context) that an EXIF tag belongs to.
#[derive(Clone, Copy, Debug, PartialEq, Eq, Structural)]
pub enum ExifContext {
    /// TIFF attributes of the image itself.
    Tiff,
    /// Exif attributes.
    Exif,
    /// GPS attributes.
    Gps,
}

/// An EXIF tag: its context and its number there.
#[derive(Clone, Copy, Debug, PartialEq, Eq, Structural)]
pub struct TagId {
    pub context: ExifContext,
    pub number: u16,
}

/// The numbers that an EXIF field holds, as far as the metadata reads them.
#[derive(Clone, Debug)]
pub enum ExifValue {
    Shorts(Vec<u16>),
    Longs(Vec<u32>),
    /// Unsigned rationals, as numerator and denominator.
    Rationals(Vec<(u32, u32)>),
    /// Any other kind of value.
    Other,
}

/// The numbers of an EXIF value.
pub enum ExifValueView {
    Shorts(Seq<u16>),
    Longs(Seq<u32>),
    Rationals(Seq<(u32, u32)>),
    Other,
}

/// The view of an optional EXIF value.
pub open spec fn value_view(v: Option<ExifValue>) -> Option<ExifValueView> {
    match v {
        Some(ExifValue::Shorts(x)) => Some(ExifValueView::Shorts(x@)),
        Some(ExifValue::Longs(x)) => Some(ExifValueView::Longs(x@)),
        Some(ExifValue::Rationals(x)) => Some(ExifValueView::Rationals(x@)),
        Some(ExifValue::Other) => Some(ExifValueView::Other),
        None => None,
    }
}

/// The views of a sequence of optional EXIF values.
pub open spec fn values_view(v: Seq<Option<ExifValue>>) -> Seq<Option<ExifValueView>> {
    Seq::new(v.len(), |i: int| value_view(v[i]))
}

/// The characters of a sequence of optional strings.
pub open spec fn texts_view(v: Seq<Option<String>>) -> Seq<Option<Seq<char>>> {
    Seq::new(v.len(), |i: int| text_of(v[i]))
}

/// What the EXIF reader finds in `bytes` (an image file) for each tag of `tags`: the
/// primary image's field of that tag, written as the reader displays it; none for the
/// whole where the bytes hold no EXIF data that it can read.
pub uninterp spec fn exif_texts_of(bytes: Seq<u8>, tags: Seq<TagId>) -> Option<Seq<Option<Seq<char>>>>;

/// What the EXIF reader finds in `bytes` (an image file) for each tag of `tags`: the
/// numbers of the primary image's field of that tag; none for the whole where the bytes
/// hold no EXIF data that it can read.
pub uninterp spec fn exif_values_of(bytes: Seq<u8>, tags: Seq<TagId>) -> Option<Seq<Option<ExifValueView>>>;

/// Calls `exif::Reader::read_from_container` on the bytes, then for each tag
/// `Exif::get_field` in the primary image and the field's `display_value`, written
/// out. The contract names the result, a function of the bytes and the tags, and
/// claims that it has one entry per tag.
#[verifier::external_body]
fn read_exif_texts(bytes: &[u8], tags: &[TagId]) -> (r: Option<Vec<Option<String>>>)
    ensures
        match r {
            Some(v) => v@.len() == tags@.len() && exif_texts_of(bytes@, tags@) == Some(texts_view(v@)),
            None => exif_texts_of(bytes@, tags@) is None,
        },
{
    let exif = Reader::new().read_from_container(&mut Cursor::new(bytes)).ok()?;
    Some(tags.iter().map(|t| {
        let context = match t.context {
            ExifContext::Tiff => Context::Tiff,
            ExifContext::Exif => Context::Exif,
            ExifContext::Gps => Context::Gps,
        };
        exif.get_field(Tag(context, t.number), In::PRIMARY).map(|f| f.display_value().to_string())
    }).collect())
}

/// Calls `exif::Reader::read_from_container` on the bytes, then for each tag
/// `Exif::get_field` in the primary image, and copies the field's shorts, longs or
/// rationals. The contract names the result, a function of the bytes and the tags,
/// and claims that it has one entry per tag.
#[verifier::external_body]
fn read_exif_values(bytes: &[u8], tags: &[TagId]) -> (r: Option<Vec<Option<ExifValue>>>)
    ensures
        match r {
            Some(v) => v@.len() == tags@.len() && exif_values_of(bytes@, tags@) == Some(values_view(v@)),
            None => exif_values_of(bytes@, tags@) is None,
        },
{
    let exif = Reader::new().read_from_container(&mut Cursor::new(bytes)).ok()?;
    Some(tags.iter().map(|t| {
        let context = match t.context {
            ExifContext::Tiff => Context::Tiff,
            ExifContext::Exif => Context::Exif,
            ExifContext::Gps => Context::Gps,
        };
        exif.get_field(Tag(context, t.number), In::PRIMARY).map(|f| match &f.value {
            Value::Short(v) => ExifValue::Shorts(v.clone()),
            Value::Long(v) => ExifValue::Longs(v.clone()),
            Value::Rational(v) => ExifValue::Rationals(v.iter().map(|r| (r.num, r.denom)).collect()),
            _ => ExifValue::Other,
        })
    }).collect())
}

/// The tags read as text: make, model, lens model, ISO, original date, software,
/// copyright, exposure bias, white balance, flash, and the two GPS references.
pub open spec fn text_tags() -> Seq<TagId> {
    seq![
        TagId { context: ExifContext::Tiff, number: 0x10f },
        TagId { context: ExifContext::Tiff, number: 0x110 },
        TagId { context: ExifContext::Exif, number: 0xa434 },
        TagId { context: ExifContext::Exif, number: 0x8827 },
        TagId { context: ExifContext::Exif, number: 0x9003 },
        TagId { context: ExifContext::Tiff, number: 0x131 },
        TagId { context: ExifContext::Tiff, number: 0x8298 },
        TagId { context: ExifContext::Exif, number: 0x9204 },
        TagId { context: ExifContext::Exif, number: 0xa403 },
        TagId { context: ExifContext::Exif, number: 0x9209 },
        TagId { context: ExifContext::Gps, number: 0x1 },
        TagId { context: ExifContext::Gps, number: 0x3 },
    ]
}

/// The tags read as numbers: focal length, f-number, exposure time, orientation, GPS
/// latitude and longitude, pixel X dimension, image width, pixel Y dimension, image
/// length.
pub open spec fn value_tags() -> Seq<TagId> {
    seq![
        TagId { context: ExifContext::Exif, number: 0x920a },
        TagId { context: ExifContext::Exif, number: 0x829d },
        TagId { context: ExifContext::Exif, number: 0x829a },
        TagId { context: ExifContext::Tiff, number: 0x112 },
        TagId { context: ExifContext::Gps, number: 0x2 },
        TagId { context: ExifContext::Gps, number: 0x4 },
        TagId { context: ExifContext::Exif, number: 0xa002 },
        TagId { context: ExifContext::Tiff, number: 0x100 },
        TagId { context: ExifContext::Exif, number: 0xa003 },
        TagId { context: ExifContext::Tiff, number: 0x101 },
    ]
}

/// The first rational of a value holding rationals.
pub open spec fn first_rational(v: Option<ExifValueView>) -> Option<(u32, u32)> {
    match v {
        Some(ExifValueView::Rationals(rs)) => if rs.len() > 0 { Some(rs[0]) } else { None },
        _ => None,
    }
}

/// The first number of a value holding shorts.
pub open spec fn first_short(v: Option<ExifValueView>) -> Option<u32> {
    match v {
        Some(ExifValueView::Shorts(xs)) => if xs.len() > 0 { Some(xs[0] as u32) } else { None },
        _ => None,
    }
}

/// The first number of a value holding longs or shorts.
pub open spec fn first_uint(v: Option<ExifValueView>) -> Option<u32> {
    match v {
        Some(ExifValueView::Longs(xs)) => if xs.len() > 0 { Some(xs[0]) } else { None },
        Some(ExifValueView::Shorts(xs)) => if xs.len() > 0 { Some(xs[0] as u32) } else { None },
        _ => None,
    }
}

/// All rationals of a value holding rationals.
pub open spec fn all_rationals(v: Option<ExifValueView>) -> Option<Seq<(u32, u32)>> {
    match v {
        Some(ExifValueView::Rationals(rs)) => Some(rs),
        _ => None,
    }
}

/// The rationals held by an optional vector.
pub open spec fn rationals_of(o: Option<Vec<(u32, u32)>>) -> Option<Seq<(u32, u32)>> {
    match o {
        Some(v) => Some(v@),
        None => None,
    }
}

/// `f` holds what was read as text (`texts`, in the order of `text_tags`) and as
/// numbers (`values`, in the order of `value_tags`).
pub open spec fn exif_fields_read(f: ExifFields, texts: Seq<Option<Seq<char>>>, values: Seq<Option<ExifValueView>>) -> bool {
    &&& text_of(f.make) == texts[0]
    &&& text_of(f.model) == texts[1]
    &&& text_of(f.lens_model) == texts[2]
    &&& text_of(f.iso) == texts[3]
    &&& text_of(f.date_time_original) == texts[4]
    &&& text_of(f.software) == texts[5]
    &&& text_of(f.copyright) == texts[6]
    &&& text_of(f.exposure_bias) == texts[7]
    &&& text_of(f.white_balance) == texts[8]
    &&& text_of(f.flash) == texts[9]
    &&& text_of(f.gps_latitude_ref) == texts[10]
    &&& text_of(f.gps_longitude_ref) == texts[11]
    &&& f.focal_length == first_rational(values[0])
    &&& f.f_number == first_rational(values[1])
    &&& f.exposure_time == first_rational(values[2])
    &&& f.orientation == first_short(values[3])
    &&& rationals_of(f.gps_latitude) == all_rationals(values[4])
    &&& rationals_of(f.gps_longitude) == all_rationals(values[5])
    &&& f.pixel_x_dimension == first_uint(values[6])
    &&& f.image_width == first_uint(values[7])
    &&& f.pixel_y_dimension == first_uint(values[8])
    &&& f.image_length == first_uint(values[9])
}

/// The tags of `text_tags`.
fn text_tag_list() -> (r: Vec<TagId>)
    ensures
        r@ == text_tags(),
{
    let r = vec![
        TagId { context: ExifContext::Tiff, number: 0x10f },
        TagId { context: ExifContext::Tiff, number: 0x110 },
        TagId { context: ExifContext::Exif, number: 0xa434 },
        TagId { context: ExifContext::Exif, number: 0x8827 },
        TagId { context: ExifContext::Exif, number: 0x9003 },
        TagId { context: ExifContext::Tiff, number: 0x131 },
        TagId { context: ExifContext::Tiff, number: 0x8298 },
        TagId { context: ExifContext::Exif, number: 0x9204 },
        TagId { context: ExifContext::Exif, number: 0xa403 },
        TagId { context: ExifContext::Exif, number: 0x9209 },
        TagId { context: ExifContext::Gps, number: 0x1 },
        TagId { context: ExifContext::Gps, number: 0x3 },
    ];
    assert(r@ =~= text_tags());
    r
}

/// The tags of `value_tags`.
fn value_tag_list() -> (r: Vec<TagId>)
    ensures
        r@ == value_tags(),
{
    let r = vec![
        TagId { context: ExifContext::Exif, number: 0x920a },
        TagId { context: ExifContext::Exif, number: 0x829d },
        TagId { context: ExifContext::Exif, number: 0x829a },
        TagId { context: ExifContext::Tiff, number: 0x112 },
        TagId { context: ExifContext::Gps, number: 0x2 },
        TagId { context: ExifContext::Gps, number: 0x4 },
        TagId { context: ExifContext::Exif, number: 0xa002 },
        TagId { context: ExifContext::Tiff, number: 0x100 },
        TagId { context: ExifContext::Exif, number: 0xa003 },
        TagId { context: ExifContext::Tiff, number: 0x101 },
    ];
    assert(r@ =~= value_tags());
    r
}

/// The first rational of a value holding rationals.
fn first_rational_of(v: &Option<ExifValue>) -> (r: Option<(u32, u32)>)
    ensures
        r == first_rational(value_view(*v)),
{
    match v {
        Some(ExifValue::Rationals(rs)) => if rs.len() > 0 { Some(rs[0]) } else { None },
        _ => None,
    }
}

/// The first number of a value holding shorts.
fn first_short_of(v: &Option<ExifValue>) -> (r: Option<u32>)
    ensures
        r == first_short(value_view(*v)),
{
    match v {
        Some(ExifValue::Shorts(xs)) => if xs.len() > 0 { Some(xs[0] as u32) } else { None },
        _ => None,
    }
}

/// The first number of a value holding longs or shorts.
fn first_uint_of(v: &Option<ExifValue>) -> (r: Option<u32>)
    ensures
        r == first_uint(value_view(*v)),
{
    match v {
        Some(ExifValue::Longs(xs)) => if xs.len() > 0 { Some(xs[0]) } else { None },
        Some(ExifValue::Shorts(xs)) => if xs.len() > 0 { Some(xs[0] as u32) } else { None },
        _ => None,
    }
}

/// All rationals of a value holding rationals.
fn all_rationals_of(v: &Option<ExifValue>) -> (r: Option<Vec<(u32, u32)>>)
    ensures
        rationals_of(r) == all_rationals(value_view(*v)),
{
    match v {
        Some(ExifValue::Rationals(rs)) => {
            let mut copy: Vec<(u32, u32)> = Vec::new();
            let mut i: usize = 0;
            while i < rs.len()
                invariant
                    i <= rs@.len(),
                    copy@ == rs@.take(i as int),
                decreases rs@.len() - i,
            {
                copy.push(rs[i]);
                assert(rs@.take(i + 1) =~= rs@.take(i as int).push(rs@[i as int]));
                i = i + 1;
            }
            assert(rs@.take(rs@.len() as int) =~= rs@);
            Some(copy)
        },
        _ => None,
    }
}

/// Read the EXIF tags that the metadata shows from the bytes of an image file: none
/// where the bytes hold no EXIF data that the reader can read.
pub fn read_exif_fields(bytes: &[u8]) -> (r: Option<ExifFields>)
    ensures
        r is Some <==> (exif_texts_of(bytes@, text_tags()) is Some && exif_values_of(bytes@, value_tags()) is Some),
        r matches Some(f) ==> exif_fields_read(
            f,
            exif_texts_of(bytes@, text_tags()).unwrap(),
            exif_values_of(bytes@, value_tags()).unwrap(),
        ),
{
    let text_list = text_tag_list();
    let value_list = value_tag_list();
    let texts = match read_exif_texts(bytes, text_list.as_slice()) {
        Some(t) => t,
        None => return None,
    };
    let values = match read_exif_values(bytes, value_list.as_slice()) {
        Some(v) => v,
        None => return None,
    };
    let ghost tv = texts_view(texts@);
    let ghost vv = values_view(values@);
    assert(tv[0] == text_of(texts@[0]));
    let f = ExifFields {
        make: copy_text(&texts[0]),
        model: copy_text(&texts[1]),
        lens_model: copy_text(&texts[2]),
        focal_length: first_rational_of(&values[0]),
        f_number: first_rational_of(&values[1]),
        exposure_time: first_rational_of(&values[2]),
        iso: copy_text(&texts[3]),
        date_time_original: copy_text(&texts[4]),
        orientation: first_short_of(&values[3]),
        gps_latitude: all_rationals_of(&values[4]),
        gps_latitude_ref: copy_text(&texts[10]),
        gps_longitude: all_rationals_of(&values[5]),
        gps_longitude_ref: copy_text(&texts[11]),
        pixel_x_dimension: first_uint_of(&values[6]),
        image_width: first_uint_of(&values[7]),
        pixel_y_dimension: first_uint_of(&values[8]),
        image_length: first_uint_of(&values[9]),
        software: copy_text(&texts[5]),
        copyright: copy_text(&texts[6]),
        exposure_bias: copy_text(&texts[7]),
        white_balance: copy_text(&texts[8]),
        flash: copy_text(&texts[9]),
    };
    Some(f)
}

/// Each field of the metadata comes from its own EXIF tag and from no other: the
/// textual ones are that tag's text with the surrounding white space trimmed (none
/// where the tag is absent or blank), ISO, white balance and flash are the tag's text
/// as displayed, and the orientation is the tag's number.
pub proof fn law_metadata_from_own_tags(
    m: ImageMetadata,
    f: ExifFields,
    gps_latitude: Option<Seq<char>>,
    gps_longitude: Option<Seq<char>>,
)
    requires
        metadata_of(m, f, gps_latitude, gps_longitude),
    ensures
        text_of(m.camera_make) == kept_trimmed(f.make),
        text_of(m.camera_model) == kept_trimmed(f.model),
        text_of(m.lens_model) == kept_trimmed(f.lens_model),
        text_of(m.date_taken) == kept_trimmed(f.date_time_original),
        text_of(m.software) == kept_trimmed(f.software),
        text_of(m.copyright) == kept_trimmed(f.copyright),
        text_of(m.exposure_compensation) == kept_trimmed(f.exposure_bias),
        text_of(m.iso) == text_of(f.iso),
        text_of(m.white_balance) == text_of(f.white_balance),
        text_of(m.flash) == text_of(f.flash),
        m.orientation == f.orientation,
        f.copyright is None ==> m.copyright is None,
        f.software is None ==> m.software is None,
        text_of(m.gps_latitude) == gps_latitude,
        text_of(m.gps_longitude) == gps_longitude,
{
}

/// A tag's text with the surrounding white space removed, or none where the tag is
/// absent or holds only white space.
pub open spec fn kept_trimmed(raw: Option<String>) -> Option<Seq<char>> {
    match raw {
        None => None,
        Some(s) => {
            let t = s@.skip(leading_white(s@) as int);
            let t = t.take(t.len() - trailing_white(t));
            if t.len() == 0 { None } else { Some(t) }
        },
    }
}

/// Metadata that shows any line has a populated field, so the overlay sets every
/// non-empty metadata section apart from the file's lines. (The converse fails: an
/// orientation alone, or one GPS coordinate, shows no line.)
pub proof fn law_shown_metadata_is_present(m: ImageMetadata)
    requires
        metadata_lines(m).len() > 0,
    ensures
        metadata_present(m),
{
}

} // verus!
