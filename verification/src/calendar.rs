//! UTC dates and times of Unix timestamps, in the Gregorian calendar.

use crate::text::{decimal_text, pad_left};
use vstd::prelude::*;
use vstd::string::*;

verus! {

/// Whether `y` is a leap year.
pub open spec fn is_leap(y: int) -> bool {
    y % 4 == 0 && (y % 100 != 0 || y % 400 == 0)
}

/// The number of days of a month.
pub open spec fn days_in_month(y: int, m: int) -> int {
    if m == 2 {
        if is_leap(y) {
            29
        } else {
            28
        }
    } else if m == 4 || m == 6 || m == 9 || m == 11 {
        30
    } else {
        31
    }
}

/// A date of the Gregorian calendar.
pub struct Date {
    pub y: int,
    pub m: int,
    pub d: int,
}

/// The day after a date.
pub open spec fn next_day(t: Date) -> Date {
    if t.d < days_in_month(t.y, t.m) {
        Date { d: t.d + 1, ..t }
    } else if t.m < 12 {
        Date { m: t.m + 1, d: 1, ..t }
    } else {
        Date { y: t.y + 1, m: 1, d: 1 }
    }
}

/// The date that lies `days` days after 1970-01-01.
pub open spec fn date_of(days: nat) -> Date
    decreases days,
{
    if days == 0 {
        Date { y: 1970, m: 1, d: 1 }
    } else {
        next_day(date_of((days - 1) as nat))
    }
}

/// The first day of the given year of a 400-year era, where a year begins on
/// the first of March.
#[verifier::opaque]
spec fn year_start(yoe: int) -> int {
    365 * yoe + yoe / 4 - yoe / 100
}

/// The year of the era that a day of the era falls in.
#[verifier::opaque]
spec fn year_of_era(doe: int) -> int {
    (doe - doe / 1460 + doe / 36524 - doe / 146096) / 365
}

/// The date of a day number counted from the first of March of year 0.
spec fn shifted_date(z: int) -> Date {
    let era = z / 146097;
    let doe = z - era * 146097;
    let yoe = year_of_era(doe);
    let doy = doe - year_start(yoe);
    let mp = (5 * doy + 2) / 153;
    let m = if mp < 10 {
        mp + 3
    } else {
        mp - 9
    };
    Date {
        y: if m <= 2 {
            yoe + era * 400 + 1
        } else {
            yoe + era * 400
        },
        m,
        d: doy - (153 * mp + 2) / 5 + 1,
    }
}

proof fn lemma_century(c: int, e: int)
    requires
        0 <= c <= 3,
        0 <= e <= 36523,
    ensures
        ({
            let y = (e - (24 * c + e) / 1460) / 365;
            let start = 365 * y + y / 4;
            &&& 0 <= y <= 99
            &&& 0 <= e - start <= 365
            &&& e - start == 365 ==> (y + 1) % 4 == 0 && y + 1 != 100
        }),
{
    let q = e / 1461;
    let r = e % 1461;
    assert(e == 1461 * q + r);
    assert(0 <= q <= 24);
    let b: int = if 24 * c + q + r >= 1460 {
        1
    } else {
        0
    };
    assert((24 * c + e) / 1460 == q + b) by {
        assert(24 * c + e == 1460 * q + (24 * c + q + r));
    }
    let y = (e - (24 * c + e) / 1460) / 365;
    assert(e - (24 * c + e) / 1460 == 1460 * q + (r - b));
    let k = (r - b) / 365;
    assert(0 <= r - b <= 1459);
    assert(0 <= k <= 3);
    assert(y == 4 * q + k);
    assert(y / 4 == q);
}

proof fn lemma_year_of_era(doe: int)
    requires
        0 <= doe <= 146096,
    ensures
        0 <= year_of_era(doe) <= 399,
        0 <= doe - year_start(year_of_era(doe)) <= 365,
        doe - year_start(year_of_era(doe)) == 365 ==> is_leap(year_of_era(doe) + 1),
{
    reveal(year_of_era);
    reveal(year_start);
    if doe == 146096 {
        assert(year_of_era(doe) == 399);
        assert(year_start(399) == 145731);
    } else {
        let c = doe / 36524;
        let e = doe % 36524;
        assert(doe == 36524 * c + e);
        assert(0 <= c <= 3);
        assert(doe / 146096 == 0);
        assert(doe / 1460 == 25 * c + (24 * c + e) / 1460) by {
            assert(doe == 1460 * (25 * c) + (24 * c + e));
        }
        lemma_century(c, e);
        let y = (e - (24 * c + e) / 1460) / 365;
        let n = e - (24 * c + e) / 1460;
        assert(doe - doe / 1460 + doe / 36524 - doe / 146096 == 365 * (100 * c) + n);
        assert(year_of_era(doe) == 100 * c + y);
        assert((100 * c + y) / 4 == 25 * c + y / 4);
        assert((100 * c + y) / 100 == c);
        assert(year_start(100 * c + y) == 36524 * c + 365 * y + y / 4);
        let w = 100 * c + y + 1;
        if doe - year_start(year_of_era(doe)) == 365 {
            assert(w % 4 == 0);
            assert(w % 100 == y + 1);
        }
    }
}

proof fn lemma_year_step(y: int)
    requires
        0 <= y,
    ensures
        year_start(y + 1) - year_start(y) == 365 + (if (y + 1) % 4 == 0 && (y + 1) % 100 != 0 {
            1int
        } else {
            0
        }),
{
    reveal(year_start);
    assert((y + 1) % 4 == 0 ==> (y + 1) / 4 == y / 4 + 1);
    assert((y + 1) % 4 != 0 ==> (y + 1) / 4 == y / 4);
    assert((y + 1) % 100 == 0 ==> (y + 1) / 100 == y / 100 + 1);
    assert((y + 1) % 100 != 0 ==> (y + 1) / 100 == y / 100);
}

proof fn lemma_year_start_grows(a: int, b: int)
    requires
        0 <= a <= b,
    ensures
        year_start(b) - year_start(a) >= 365 * (b - a),
    decreases b - a,
{
    if a < b {
        lemma_year_start_grows(a, b - 1);
        lemma_year_step(b - 1);
    }
}

/// The next day of the era is the next day of the same year, or the first of the next.
proof fn lemma_next_in_era(doe: int)
    requires
        0 <= doe < 146096,
    ensures
        ({
            let y = year_of_era(doe);
            let doy = doe - year_start(y);
            let y2 = year_of_era(doe + 1);
            let doy2 = doe + 1 - year_start(y2);
            let last = if is_leap(y + 1) {
                365int
            } else {
                364
            };
            if doy < last {
                y2 == y && doy2 == doy + 1
            } else {
                y2 == y + 1 && doy2 == 0
            }
        }),
{
    let y = year_of_era(doe);
    let y2 = year_of_era(doe + 1);
    lemma_year_of_era(doe);
    lemma_year_of_era(doe + 1);
    lemma_year_step(y);
    lemma_year_step(y2);
    if y2 < y {
        lemma_year_start_grows(y2, y);
        lemma_year_start_grows(y2 + 1, y);
        assert(doe + 1 - year_start(y2) <= 365);
        assert(year_start(y) <= doe);
        assert(false);
    }
    if y2 > y + 1 {
        lemma_year_start_grows(y + 1, y2);
        assert(false);
    }
    assert((y + 1) % 400 == 0 ==> y + 1 == 400);
    if y + 1 == 400 {
        assert(year_start(399) == 145731) by {
            reveal(year_start);
        }
    }
}

/// The next day within a year that begins in March.
proof fn lemma_next_in_year(y: int, doy: int)
    requires
        0 <= doy < 365,
        doy == 364 ==> is_leap(y + 1),
    ensures
        ({
            let mp = (5 * doy + 2) / 153;
            let mp2 = (5 * (doy + 1) + 2) / 153;
            let d = doy - (153 * mp + 2) / 5 + 1;
            let d2 = doy + 1 - (153 * mp2 + 2) / 5 + 1;
            let m = if mp < 10 {
                mp + 3
            } else {
                mp - 9
            };
            let cy = if m <= 2 {
                y + 1
            } else {
                y
            };
            &&& 0 <= mp <= 11
            &&& if d < days_in_month(cy, m) {
                mp2 == mp && d2 == d + 1
            } else {
                mp2 == mp + 1 && d2 == 1
            }
        }),
{
    let mp = (5 * doy + 2) / 153;
    if mp == 0 {
    } else if mp == 1 {
    } else if mp == 2 {
    } else if mp == 3 {
    } else if mp == 4 {
    } else if mp == 5 {
    } else if mp == 6 {
    } else if mp == 7 {
    } else if mp == 8 {
    } else if mp == 9 {
    } else if mp == 10 {
    } else {
    }
}

proof fn lemma_next_shifted(z: int)
    requires
        0 <= z,
    ensures
        shifted_date(z + 1) == next_day(shifted_date(z)),
{
    let era = z / 146097;
    let doe = z - era * 146097;
    assert(0 <= doe <= 146096);
    let y = year_of_era(doe);
    let doy = doe - year_start(y);
    lemma_year_of_era(doe);
    let year = y + era * 400;
    assert(is_leap(year + 1) == is_leap(y + 1)) by {
        assert((year + 1) % 4 == (y + 1) % 4);
        assert((year + 1) % 100 == (y + 1) % 100);
        assert((year + 1) % 400 == (y + 1) % 400);
    }
    let last: int = if is_leap(y + 1) {
        365
    } else {
        364
    };
    if doe == 146096 {
        assert((z + 1) / 146097 == era + 1);
        assert(z + 1 - (era + 1) * 146097 == 0);
        assert(year_of_era(146096) == 399 && year_of_era(0) == 0) by {
            reveal(year_of_era);
        }
        assert(year_start(399) == 145731 && year_start(0) == 0) by {
            reveal(year_start);
        }
        assert(is_leap(400));
    } else {
        assert((z + 1) / 146097 == era);
        lemma_next_in_era(doe);
        if doy < last {
            lemma_next_in_year(year, doy);
        } else {
            assert(doy == last);
            assert(year_start(y + 1) == doe + 1);
        }
    }
}

proof fn lemma_shifted_is_date(days: nat)
    ensures
        shifted_date(days as int + 719468) == date_of(days),
    decreases days,
{
    if days == 0 {
        assert(shifted_date(719468) == (Date { y: 1970, m: 1, d: 1 })) by {
            assert(719468int / 146097 == 4);
            let doe = 719468int - 4 * 146097;
            assert(doe == 135080);
            reveal(year_of_era);
            reveal(year_start);
            assert(year_of_era(doe) == 369);
            assert(year_start(369) == 134774);
        }
    } else {
        lemma_shifted_is_date((days - 1) as nat);
        lemma_next_shifted(days - 1 + 719468);
    }
}

/// The UTC date of a Unix timestamp.
pub open spec fn unix_date(secs: nat) -> Date {
    date_of(secs / 86400)
}

/// Splits a Unix timestamp into UTC year, month, day, hour, minute and second.
/// The year is kept modulo 2^32.
pub fn unix_decompose(secs: u64) -> (r: (u32, u32, u32, u32, u32, u32))
    ensures
        r.0 == unix_date(secs as nat).y % 0x1_0000_0000,
        r.1 == unix_date(secs as nat).m,
        r.2 == unix_date(secs as nat).d,
        r.3 == secs / 3600 % 24,
        r.4 == secs / 60 % 60,
        r.5 == secs % 60,
{
    let s: u32 = (secs % 60) as u32;
    let mi: u32 = ((secs / 60) % 60) as u32;
    let h: u32 = ((secs / 3600) % 24) as u32;
    let days: u64 = secs / 86400;
    let z: u64 = days + 719468;
    let era: u64 = z / 146097;
    let doe: u64 = z - era * 146097;
    proof {
        lemma_shifted_is_date(days as nat);
        lemma_year_of_era(doe as int);
        lemma_month(doe as int - year_start(year_of_era(doe as int)));
        reveal(year_of_era);
        reveal(year_start);
    }
    let yoe: u64 = (doe - doe / 1460 + doe / 36524 - doe / 146096) / 365;
    let y: u64 = yoe + era * 400;
    let doy: u64 = doe - (365 * yoe + yoe / 4 - yoe / 100);
    let mp: u64 = (5 * doy + 2) / 153;
    let d: u64 = doy - (153 * mp + 2) / 5 + 1;
    let mo: u64 = if mp < 10 {
        mp + 3
    } else {
        mp - 9
    };
    let year: u64 = if mo <= 2 {
        y + 1
    } else {
        y
    };
    ((year % 0x1_0000_0000) as u32, mo as u32, d as u32, h, mi, s)
}

proof fn lemma_month(doy: int)
    requires
        0 <= doy <= 365,
    ensures
        0 <= (5 * doy + 2) / 153 <= 11,
        0 <= doy - (153 * ((5 * doy + 2) / 153) + 2) / 5 <= 30,
{
}

/// `n` in decimal, with zeros in front of it up to `width` digits.
pub open spec fn zero_padded(n: nat, width: int) -> Seq<char> {
    crate::text::padded_left(crate::text::decimal(n), '0', width)
}

/// `n` in decimal, with zeros in front of it up to `width` digits.
pub fn zero_pad(n: u64, width: usize) -> (r: String)
    ensures
        r@ == zero_padded(n as nat, width as int),
{
    pad_left(decimal_text(n).as_str(), '0', width)
}

/// The date of a timestamp as `YYYY-MM-DD`.
pub open spec fn date_text(secs: nat) -> Seq<char> {
    let t = unix_date(secs);
    zero_padded((t.y % 0x1_0000_0000) as nat, 4) + "-"@ + zero_padded(t.m as nat, 2) + "-"@
        + zero_padded(t.d as nat, 2)
}

/// The time of day of a timestamp: hours, minutes and seconds of two digits
/// each, with `sep` between them.
pub open spec fn time_text(secs: nat, sep: Seq<char>) -> Seq<char> {
    zero_padded(secs / 3600 % 24, 2) + sep + zero_padded(secs / 60 % 60, 2) + sep + zero_padded(
        secs % 60,
        2,
    )
}

/// The timestamp as `YYYY-MM-DDTHH:MM:SSZ`.
pub open spec fn iso8601_text(secs: nat) -> Seq<char> {
    date_text(secs) + "T"@ + time_text(secs, ":"@) + "Z"@
}

/// The timestamp as `YYYY-MM-DD_HH-MM-SS`.
pub open spec fn filename_text(secs: nat) -> Seq<char> {
    date_text(secs) + "_"@ + time_text(secs, "-"@)
}

fn date_string(y: u32, mo: u32, d: u32) -> (r: String)
    ensures
        r@ == zero_padded(y as nat, 4) + "-"@ + zero_padded(mo as nat, 2) + "-"@ + zero_padded(
            d as nat,
            2,
        ),
{
    let mut out: String = zero_pad(y as u64, 4);
    out.append("-");
    out.append(zero_pad(mo as u64, 2).as_str());
    out.append("-");
    out.append(zero_pad(d as u64, 2).as_str());
    out
}

fn time_string(h: u32, mi: u32, s: u32, sep: &str) -> (r: String)
    ensures
        r@ == zero_padded(h as nat, 2) + sep@ + zero_padded(mi as nat, 2) + sep@ + zero_padded(
            s as nat,
            2,
        ),
{
    let mut out: String = zero_pad(h as u64, 2);
    out.append(sep);
    out.append(zero_pad(mi as u64, 2).as_str());
    out.append(sep);
    out.append(zero_pad(s as u64, 2).as_str());
    out
}

/// The timestamp in ISO 8601 with second precision, in UTC.
pub fn unix_to_iso8601(secs: u64) -> (r: String)
    ensures
        r@ == iso8601_text(secs as nat),
{
    let (y, mo, d, h, mi, s) = unix_decompose(secs);
    let mut out: String = date_string(y, mo, d);
    out.append("T");
    out.append(time_string(h, mi, s, ":").as_str());
    out.append("Z");
    out
}

/// The name of the log file of a session that starts at the given time,
/// without its extension.
pub fn timestamp_filename(secs: u64) -> (r: String)
    ensures
        r@ == filename_text(secs as nat),
{
    let (y, mo, d, h, mi, s) = unix_decompose(secs);
    let mut out: String = date_string(y, mo, d);
    out.append("_");
    out.append(time_string(h, mi, s, "-").as_str());
    out
}

/// The time of day of a timestamp in milliseconds, as `HH:MM:SS.mmm`.
pub open spec fn clock_text(ms: nat) -> Seq<char> {
    time_text(ms / 1000 % 86400, ":"@) + "."@ + zero_padded(ms % 1000, 3)
}

/// The UTC time of day of a timestamp in milliseconds.
pub fn ts(ms: u128) -> (r: String)
    ensures
        r@ == clock_text(ms as nat),
{
    let s: u64 = ((ms / 1000) % 86400) as u64;
    assert(s / 3600 % 24 == s / 3600);
    assert(s / 60 % 60 == (s % 3600) / 60);
    let mut out: String = time_string(
        (s / 3600) as u32,
        ((s % 3600) / 60) as u32,
        (s % 60) as u32,
        ":",
    );
    out.append(".");
    out.append(zero_pad((ms % 1000) as u64, 3).as_str());
    out
}

/// Whether a date is one of the calendar.
pub open spec fn is_date(t: Date) -> bool {
    1 <= t.m <= 12 && 1 <= t.d <= days_in_month(t.y, t.m)
}

/// Whether `a` comes before `b`.
pub open spec fn date_before(a: Date, b: Date) -> bool {
    a.y < b.y || (a.y == b.y && (a.m < b.m || (a.m == b.m && a.d < b.d)))
}

/// Every day has a date of the calendar, from 1970 on.
pub proof fn dates_are_valid(days: nat)
    ensures
        is_date(date_of(days)),
        date_of(days).y >= 1970,
    decreases days,
{
    if days > 0 {
        dates_are_valid((days - 1) as nat);
    }
}

/// Later days have later dates: no two days share a date.
pub proof fn dates_are_ordered(a: nat, b: nat)
    requires
        a < b,
    ensures
        date_before(date_of(a), date_of(b)),
    decreases b,
{
    dates_are_valid((b - 1) as nat);
    if a < b - 1 {
        dates_are_ordered(a, (b - 1) as nat);
    }
}

/// The first timestamp of the year 10000.
pub open spec fn year_10000() -> nat {
    253402300800
}

proof fn lemma_four_digit_year(days: nat)
    requires
        days < 2932897,
    ensures
        1970 <= date_of(days).y <= 9999,
{
    lemma_shifted_is_date(days);
    dates_are_valid(days);
    let z = days as int + 719468;
    let era = z / 146097;
    let doe = z - era * 146097;
    lemma_year_of_era(doe);
    let yoe = year_of_era(doe);
    assert(era <= 24);
    if era == 24 && yoe == 399 {
        assert(year_start(399) == 145731) by {
            reveal(year_start);
        }
        assert(doe <= 146036);
    }
}

proof fn lemma_zero_padded(n: nat, width: int)
    ensures
        crate::text::digits_value(zero_padded(n, width)) == n,
        width == 2 && n < 100 ==> zero_padded(n, width).len() == 2,
        width == 4 && n < 10000 ==> zero_padded(n, width).len() == 4,
{
    reveal_with_fuel(crate::text::decimal, 4);
    crate::text::decimal_denotes(n);
    crate::text::lemma_leading_zeros(
        crate::text::decimal(n),
        width - crate::text::decimal(n).len(),
    );
}

/// The numbers that stand in a file name, in their order. All but the year
/// have a fixed place, counted from the end.
spec fn name_fields(s: Seq<char>) -> (nat, nat, nat, nat, nat, nat) {
    let n = s.len() as int;
    (
        crate::text::digits_value(s.subrange(0, n - 15)),
        crate::text::digits_value(s.subrange(n - 14, n - 12)),
        crate::text::digits_value(s.subrange(n - 11, n - 9)),
        crate::text::digits_value(s.subrange(n - 8, n - 6)),
        crate::text::digits_value(s.subrange(n - 5, n - 3)),
        crate::text::digits_value(s.subrange(n - 2, n)),
    )
}

#[verifier::spinoff_prover]
#[verifier::rlimit(40)]
proof fn lemma_name_fields(secs: nat)
    ensures
        filename_text(secs).len() == zero_padded(
            (unix_date(secs).y % 0x1_0000_0000) as nat,
            4,
        ).len() + 15,
        name_fields(filename_text(secs)) == (
            (unix_date(secs).y % 0x1_0000_0000) as nat,
            unix_date(secs).m as nat,
            unix_date(secs).d as nat,
            secs / 3600 % 24,
            secs / 60 % 60,
            secs % 60,
        ),
{
    let t = unix_date(secs);
    dates_are_valid(secs / 86400);
    reveal_strlit("-");
    reveal_strlit("_");
    let y = zero_padded((t.y % 0x1_0000_0000) as nat, 4);
    let m = zero_padded(t.m as nat, 2);
    let d = zero_padded(t.d as nat, 2);
    let h = zero_padded(secs / 3600 % 24, 2);
    let mi = zero_padded(secs / 60 % 60, 2);
    let s = zero_padded(secs % 60, 2);
    lemma_zero_padded((t.y % 0x1_0000_0000) as nat, 4);
    lemma_zero_padded(t.m as nat, 2);
    lemma_zero_padded(t.d as nat, 2);
    lemma_zero_padded(secs / 3600 % 24, 2);
    lemma_zero_padded(secs / 60 % 60, 2);
    lemma_zero_padded(secs % 60, 2);
    let name = filename_text(secs);
    let n = name.len() as int;
    assert(name.subrange(0, n - 15) =~= y);
    assert(name.subrange(n - 14, n - 12) =~= m);
    assert(name.subrange(n - 11, n - 9) =~= d);
    assert(name.subrange(n - 8, n - 6) =~= h);
    assert(name.subrange(n - 5, n - 3) =~= mi);
    assert(name.subrange(n - 2, n) =~= s);
}

/// A timestamp takes 20 characters, and a file name 19, up to the end of the
/// year 9999.
pub proof fn timestamps_have_one_width(secs: nat)
    requires
        secs < year_10000(),
    ensures
        iso8601_text(secs).len() == 20,
        filename_text(secs).len() == 19,
{
    lemma_name_fields(secs);
    lemma_four_digit_year(secs / 86400);
    lemma_zero_padded(unix_date(secs).y as nat, 4);
    reveal_strlit("-");
    reveal_strlit("_");
    reveal_strlit(":");
    reveal_strlit("T");
    reveal_strlit("Z");
}

proof fn lemma_clock_split(secs: nat)
    ensures
        secs == secs / 86400 * 86400 + secs / 3600 % 24 * 3600 + secs / 60 % 60 * 60 + secs % 60,
{
}

proof fn lemma_same_date(a: nat, b: nat)
    requires
        date_of(a) == date_of(b),
    ensures
        a == b,
{
    if a < b {
        dates_are_ordered(a, b);
    } else if b < a {
        dates_are_ordered(b, a);
    }
}

/// Sessions that start in different seconds get different file names, as long
/// as the year is below 2^32.
pub proof fn session_names_differ(a: nat, b: nat)
    requires
        a != b,
        unix_date(a).y < 0x1_0000_0000,
        unix_date(b).y < 0x1_0000_0000,
    ensures
        filename_text(a) != filename_text(b),
{
    if filename_text(a) == filename_text(b) {
        assert(unix_date(a) == unix_date(b) && a / 3600 % 24 == b / 3600 % 24 && a / 60 % 60 == b
            / 60 % 60 && a % 60 == b % 60) by {
            lemma_name_fields(a);
            lemma_name_fields(b);
            dates_are_valid(a / 86400);
            dates_are_valid(b / 86400);
        }
        lemma_same_date(a / 86400, b / 86400);
        lemma_clock_split(a);
        lemma_clock_split(b);
    }
}

proof fn lemma_year_bound(days: nat)
    ensures
        date_of(days).y <= 1970 + days,
    decreases days,
{
    if days > 0 {
        lemma_year_bound((days - 1) as nat);
    }
}

/// A day later it is the next date of the Gregorian calendar, at the same time
/// of day; the count begins on the first of January 1970.
#[verifier::spinoff_prover]
#[verifier::rlimit(40)]
pub proof fn days_follow_each_other(
    secs: u64,
    next: u64,
    a: (u32, u32, u32, u32, u32, u32),
    b: (u32, u32, u32, u32, u32, u32),
)
    requires
        call_ensures(unix_decompose, (secs,), a),
        call_ensures(unix_decompose, (next,), b),
        next == secs + 86_400,
        secs < 300_000_000_000_000,
    ensures
        secs < 86_400 ==> a.0 == 1970 && a.1 == 1 && a.2 == 1,
        b.3 == a.3 && b.4 == a.4 && b.5 == a.5,
        ({
            let leap = a.0 % 4 == 0 && (a.0 % 100 != 0 || a.0 % 400 == 0);
            let last = if a.1 == 2 {
                if leap {
                    29int
                } else {
                    28int
                }
            } else if a.1 == 4 || a.1 == 6 || a.1 == 9 || a.1 == 11 {
                30int
            } else {
                31int
            };
            &&& 1 <= a.1 <= 12
            &&& 1 <= a.2 <= last
            &&& a.2 < last ==> b.0 == a.0 && b.1 == a.1 && b.2 == a.2 + 1
            &&& a.2 == last && a.1 < 12 ==> b.0 == a.0 && b.1 == a.1 + 1 && b.2 == 1
            &&& a.2 == last && a.1 == 12 ==> b.0 == a.0 + 1 && b.1 == 1 && b.2 == 1
        }),
{
    let days = secs as nat / 86400;
    assert(next as nat / 86400 == days + 1);
    assert(next / 3600 == secs / 3600 + 24);
    assert(next / 60 == secs / 60 + 1440);
    dates_are_valid(days);
    lemma_year_bound(days);
    lemma_year_bound(days + 1);
    let today = date_of(days);
    assert(date_of(days + 1) == next_day(today));
    assert(a.0 == today.y && a.1 == today.m && a.2 == today.d);
    assert(b.0 == next_day(today).y && b.1 == next_day(today).m && b.2 == next_day(today).d);
}

/// The hours, minutes and seconds are those of the day.
pub proof fn time_of_day_is_split(secs: u64, t: (u32, u32, u32, u32, u32, u32))
    requires
        call_ensures(unix_decompose, (secs,), t),
    ensures
        t.3 < 24 && t.4 < 60 && t.5 < 60,
        t.3 * 3600 + t.4 * 60 + t.5 == secs % 86_400,
{
    lemma_clock_split(secs as nat);
}

/// The digits of a number below a hundred, a tens digit first.
pub open spec fn two_digits(n: int) -> Seq<char> {
    seq![crate::text::digit_char((n / 10) as nat), crate::text::digit_char((n % 10) as nat)]
}

proof fn lemma_two_digits(n: nat)
    requires
        n < 100,
    ensures
        zero_padded(n, 2) == two_digits(n as int),
{
    reveal_with_fuel(crate::text::decimal, 3);
    assert(zero_padded(n, 2) =~= two_digits(n as int));
}

proof fn lemma_four_digits(n: nat)
    requires
        n < 10_000,
    ensures
        zero_padded(n, 4) == two_digits(n as int / 100) + two_digits(n as int % 100),
{
    reveal_with_fuel(crate::text::decimal, 5);
    assert(zero_padded(n, 4) =~= two_digits(n as int / 100) + two_digits(n as int % 100));
}

/// How a time is written, up to the year 9999: year, month and day, then hours,
/// minutes and seconds, all with leading zeros. In the log a `T` stands
/// between the two, colons in the time and a `Z` behind it; in a file name an
/// underscore and dashes.
pub proof fn times_are_written_out(
    secs: u64,
    t: (u32, u32, u32, u32, u32, u32),
    iso: String,
    name: String,
)
    requires
        call_ensures(unix_decompose, (secs,), t),
        call_ensures(unix_to_iso8601, (secs,), iso),
        call_ensures(timestamp_filename, (secs,), name),
        secs < year_10000(),
    ensures
        ({
            let date = two_digits(t.0 as int / 100) + two_digits(t.0 as int % 100) + seq!['-']
                + two_digits(t.1 as int) + seq!['-'] + two_digits(t.2 as int);
            &&& iso@ == date + seq!['T'] + two_digits(t.3 as int) + seq![':'] + two_digits(
                t.4 as int,
            ) + seq![':'] + two_digits(t.5 as int) + seq!['Z']
            &&& name@ == date + seq!['_'] + two_digits(t.3 as int) + seq!['-'] + two_digits(
                t.4 as int,
            ) + seq!['-'] + two_digits(t.5 as int)
        }),
{
    lemma_four_digit_year(secs as nat / 86400);
    dates_are_valid(secs as nat / 86400);
    lemma_four_digits(t.0 as nat);
    lemma_two_digits(t.1 as nat);
    lemma_two_digits(t.2 as nat);
    lemma_two_digits(t.3 as nat);
    lemma_two_digits(t.4 as nat);
    lemma_two_digits(t.5 as nat);
    reveal_strlit("-");
    reveal_strlit("_");
    reveal_strlit(":");
    reveal_strlit("T");
    reveal_strlit("Z");
    assert("-"@ =~= seq!['-']);
    assert("_"@ =~= seq!['_']);
    assert(":"@ =~= seq![':']);
    assert("T"@ =~= seq!['T']);
    assert("Z"@ =~= seq!['Z']);
    let date = two_digits(t.0 as int / 100) + two_digits(t.0 as int % 100) + seq!['-']
        + two_digits(t.1 as int) + seq!['-'] + two_digits(t.2 as int);
    assert(date_text(secs as nat) =~= date);
    assert(iso@ =~= date + seq!['T'] + two_digits(t.3 as int) + seq![':'] + two_digits(t.4 as int)
        + seq![':'] + two_digits(t.5 as int) + seq!['Z']);
    assert(name@ =~= date + seq!['_'] + two_digits(t.3 as int) + seq!['-'] + two_digits(t.4 as int)
        + seq!['-'] + two_digits(t.5 as int));
}

proof fn lemma_three_digits(n: nat)
    requires
        n < 1_000,
    ensures
        zero_padded(n, 3) == seq![crate::text::digit_char(n / 100)] + two_digits(n as int % 100),
{
    reveal_with_fuel(crate::text::decimal, 4);
    assert(zero_padded(n, 3) =~= seq![crate::text::digit_char(n / 100)] + two_digits(
        n as int % 100,
    ));
}

/// The time of day in milliseconds is written as hours, minutes, seconds and
/// milliseconds, the latter behind a point.
pub proof fn milliseconds_are_written_out(ms: u128, r: String)
    requires
        call_ensures(ts, (ms,), r),
    ensures
        ({
            let day = ms as nat / 1000 % 86_400;
            let rest = ms as nat % 1000;
            r@ == two_digits(day as int / 3600) + seq![':'] + two_digits(day as int / 60 % 60)
                + seq![':'] + two_digits(day as int % 60) + seq!['.'] + (seq![
                crate::text::digit_char(rest / 100),
            ] + two_digits(rest as int % 100))
        }),
{
    let day = ms as nat / 1000 % 86_400;
    lemma_two_digits(day / 3600);
    lemma_two_digits(day / 60 % 60);
    lemma_two_digits(day % 60);
    lemma_three_digits(ms as nat % 1000);
    reveal_strlit(":");
    reveal_strlit(".");
    assert(":"@ =~= seq![':']);
    assert("."@ =~= seq!['.']);
    assert(day / 3600 % 24 == day / 3600);
}

} // verus!
