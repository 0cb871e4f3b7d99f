//! Flexible date normalizer.
//!
//! Heterogeneous date representations — spreadsheet day counts and a fixed
//! list of textual layouts — are converted into one canonical
//! `YYYY-MM-DDTHH:MM:SS` text.  Numeric inputs are day counts measured from
//! the spreadsheet epoch, which lies 25,569 days before the Unix epoch;
//! the canonical instant is `(days - 25569) * 86400` seconds after the
//! Unix epoch.  Out-of-range instants (before the Unix epoch, or at year
//! 10000 and beyond, where the fixed-width text no longer fits) yield no
//! value.  Unparseable non-empty text is passed through verbatim after
//! trimming, so operator-visible text is never silently lost.

use vstd::prelude::*;
use vstd::arithmetic::div_mod::{lemma_fundamental_div_mod, lemma_mod_breakdown};
use crate::text::{is_space, trim_seq, trim_str, lemma_trim_seq_clean};
use crate::ext::push_char;

verus! {

/// The day count of the Unix epoch in the spreadsheet epoch's reckoning,
/// in thousandths of a day.
pub const EPOCH_MILLI_DAYS: i64 = 25_569_000;

/// Whether a year is a leap year in the proleptic Gregorian calendar.
pub open spec fn is_leap(y: int) -> bool {
    (y % 4 == 0 && y % 100 != 0) || y % 400 == 0
}

/// The number of days in a year.
pub open spec fn days_in_year(y: int) -> int {
    if is_leap(y) {
        366
    } else {
        365
    }
}

/// The number of days in a month (1 = January .. 12 = December).
pub open spec fn days_in_month(y: int, m: int) -> int {
    if m == 2 {
        if is_leap(y) {
            29
        } else {
            28
        }
    } else if m == 4 || m == 6 || m == 9 || m == 11 {
        30
    } else {
        31
    }
}

/// A valid calendar date with a four-digit year.
pub open spec fn valid_date(y: int, m: int, d: int) -> bool {
    0 <= y <= 9999 && 1 <= m <= 12 && 1 <= d <= days_in_month(y, m)
}

/// A valid time of day.
pub open spec fn valid_time(h: int, mi: int, s: int) -> bool {
    0 <= h < 24 && 0 <= mi < 60 && 0 <= s < 60
}

/// Days from 1970-01-01 to the first day of year `y` (for `y >= 1970`).
pub open spec fn days_before_year(y: int) -> int
    decreases y,
{
    if y <= 1970 {
        0
    } else {
        days_before_year(y - 1) + days_in_year(y - 1)
    }
}

/// Days from the first day of year `y` to the first day of month `m`.
pub open spec fn days_before_month(y: int, m: int) -> int
    decreases m,
{
    if m <= 1 {
        0
    } else {
        days_before_month(y, m - 1) + days_in_month(y, m - 1)
    }
}

/// The day count of a civil date, measured from the Unix epoch.
pub open spec fn days_from_civil(y: int, m: int, d: int) -> int {
    days_before_year(y) + days_before_month(y, m) + (d - 1)
}

/// The character for one decimal digit.
pub open spec fn digit_char(n: int) -> char {
    (48 + n) as char
}

/// The canonical `YYYY-MM-DDTHH:MM:SS` text of a date and time.
pub open spec fn canonical_seq(y: int, m: int, d: int, h: int, mi: int, s: int) -> Seq<char> {
    Seq::new(
        19,
        |i: int|
            if i == 0 {
                digit_char(y / 1000)
            } else if i == 1 {
                digit_char((y / 100) % 10)
            } else if i == 2 {
                digit_char((y / 10) % 10)
            } else if i == 3 {
                digit_char(y % 10)
            } else if i == 4 {
                '-'
            } else if i == 5 {
                digit_char(m / 10)
            } else if i == 6 {
                digit_char(m % 10)
            } else if i == 7 {
                '-'
            } else if i == 8 {
                digit_char(d / 10)
            } else if i == 9 {
                digit_char(d % 10)
            } else if i == 10 {
                'T'
            } else if i == 11 {
                digit_char(h / 10)
            } else if i == 12 {
                digit_char(h % 10)
            } else if i == 13 {
                ':'
            } else if i == 14 {
                digit_char(mi / 10)
            } else if i == 15 {
                digit_char(mi % 10)
            } else if i == 16 {
                ':'
            } else if i == 17 {
                digit_char(s / 10)
            } else {
                digit_char(s % 10)
            }
        ,
    )
}

/// The seconds after the Unix epoch denoted by a day count given in
/// thousandths of a day (floor division; only used for counts at or
/// after the epoch).
pub open spec fn numeric_secs(milli_days: int) -> int {
    ((milli_days - EPOCH_MILLI_DAYS) * 86400) / 1000
}


/// The year reached, and the days left over, when consuming `days` year
/// by year starting from year `y`; the search stops at year 9999.
pub open spec fn spec_year_rem(y: int, days: int) -> (int, int)
    decreases 10000 - y,
{
    if y < 1970 || y >= 9999 || days < days_in_year(y) {
        (y, days)
    } else {
        spec_year_rem(y + 1, days - days_in_year(y))
    }
}

/// The month reached, and the days left over, when consuming `rem` month
/// by month starting from month `m` of year `y`.
pub open spec fn spec_month_rem(y: int, m: int, rem: int) -> (int, int)
    decreases 12 - m,
{
    if m < 1 || m >= 12 || rem < days_in_month(y, m) {
        (m, rem)
    } else {
        spec_month_rem(y, m + 1, rem - days_in_month(y, m))
    }
}

/// The civil date lying `days` days after the Unix epoch (meaningful for
/// `0 <= days < days_before_year(10000)`).
pub open spec fn civil_of_days(days: int) -> (int, int, int) {
    let yr = spec_year_rem(1970, days);
    let mr = spec_month_rem(yr.0, 1, yr.1);
    (yr.0, mr.0, mr.1 + 1)
}

/// What numeric normalization returns, as a function of the day count:
/// nothing before the Unix epoch or from year 10000 on, else the
/// canonical text of the denoted instant.
#[verifier::opaque]
pub open spec fn numeric_norm(milli_days: int) -> Option<Seq<char>> {
    if milli_days < EPOCH_MILLI_DAYS {
        None
    } else {
        let secs = numeric_secs(milli_days);
        let days = secs / 86400;
        if days >= days_before_year(10000) {
            None
        } else {
            let c = civil_of_days(days);
            Some(
                canonical_seq(
                    c.0,
                    c.1,
                    c.2,
                    (secs % 86400) / 3600,
                    ((secs % 86400) % 3600) / 60,
                    (secs % 86400) % 60,
                ),
            )
        }
    }
}


proof fn lemma_spec_year_rem_props(y: int, days: int)
    requires
        1970 <= y <= 9999,
        0 <= days,
    ensures
        ({
            let r = spec_year_rem(y, days);
            &&& 1970 <= r.0 <= 9999
            &&& 0 <= r.1
            &&& days_before_year(r.0) + r.1 == days_before_year(y) + days
            &&& (r.1 >= days_in_year(r.0) ==> r.0 == 9999)
        }),
    decreases 10000 - y,
{
    if !(y >= 9999 || days < days_in_year(y)) {
        lemma_spec_year_rem_props(y + 1, days - days_in_year(y));
    }
}

proof fn lemma_spec_month_rem_props(y: int, m: int, rem: int)
    requires
        1 <= m <= 12,
        0 <= rem,
    ensures
        ({
            let r = spec_month_rem(y, m, rem);
            &&& 1 <= r.0 <= 12
            &&& 0 <= r.1
            &&& days_before_month(y, r.0) + r.1 == days_before_month(y, m) + rem
            &&& (r.1 >= days_in_month(y, r.0) ==> r.0 == 12)
        }),
    decreases 12 - m,
{
    if !(m >= 12 || rem < days_in_month(y, m)) {
        lemma_spec_month_rem_props(y, m + 1, rem - days_in_month(y, m));
    }
}

/// A day count within range denotes one valid civil date at that exact
/// distance from the Unix epoch.
pub proof fn lemma_civil_of_days(days: int)
    requires
        0 <= days < days_before_year(10000),
    ensures
        ({
            let c = civil_of_days(days);
            &&& valid_date(c.0, c.1, c.2)
            &&& 1970 <= c.0 <= 9999
            &&& days_from_civil(c.0, c.1, c.2) == days
        }),
{
    lemma_spec_year_rem_props(1970, days);
    let yr = spec_year_rem(1970, days);
    if yr.1 >= days_in_year(yr.0) {
        assert(yr.0 == 9999);
        lemma_days_before_year_monotonic(1970, 9999);
        assert(days_before_year(10000) == days_before_year(9999) + days_in_year(9999));
        assert(false);
    }
    lemma_spec_month_rem_props(yr.0, 1, yr.1);
    let mr = spec_month_rem(yr.0, 1, yr.1);
    if mr.1 >= days_in_month(yr.0, mr.0) {
        assert(mr.0 == 12);
        lemma_months_fill_year(yr.0);
        assert(false);
    }
}

/// Every numeric day count at or after the spreadsheet epoch's
/// Unix-epoch mark that normalizes at all normalizes to the canonical
/// text of a civil date on or after the Unix epoch; every day count
/// before that mark yields no value.  (A count at or past year 10000 —
/// 2,958,466 whole days and beyond — is out of range and also yields no
/// value.)
pub proof fn lemma_day_count_epoch(milli_days: int)
    ensures
        milli_days < EPOCH_MILLI_DAYS ==> numeric_norm(milli_days) is None,
        numeric_norm(milli_days) matches Some(t) ==> ({
            let secs = numeric_secs(milli_days);
            let c = civil_of_days(secs / 86400);
            &&& valid_date(c.0, c.1, c.2)
            &&& 1970 <= c.0 <= 9999
            &&& days_from_civil(c.0, c.1, c.2) == secs / 86400
            &&& secs / 86400 >= 0
            &&& t == canonical_seq(
                c.0,
                c.1,
                c.2,
                (secs % 86400) / 3600,
                ((secs % 86400) % 3600) / 60,
                (secs % 86400) % 60,
            )
        }),
{
    reveal(numeric_norm);
    if milli_days >= EPOCH_MILLI_DAYS && numeric_norm(milli_days) is Some {
        let secs = numeric_secs(milli_days);
        assert(secs >= 0) by {
            assert((milli_days - EPOCH_MILLI_DAYS) * 86400 >= 0);
        }
        assert(secs / 86400 >= 0);
        lemma_civil_of_days(secs / 86400);
    }
}

/// The number of days in a year, executable form.
pub fn days_in_year_exec(y: u32) -> (r: u32)
    ensures
        r == days_in_year(y as int),
{
    if (y % 4 == 0 && y % 100 != 0) || y % 400 == 0 {
        366
    } else {
        365
    }
}

/// The number of days in a month, executable form.
pub fn days_in_month_exec(y: u32, m: u32) -> (r: u32)
    requires
        1 <= m <= 12,
    ensures
        r == days_in_month(y as int, m as int),
{
    if m == 2 {
        if (y % 4 == 0 && y % 100 != 0) || y % 400 == 0 {
            29
        } else {
            28
        }
    } else if m == 4 || m == 6 || m == 9 || m == 11 {
        30
    } else {
        31
    }
}

proof fn lemma_days_before_year_monotonic(a: int, b: int)
    requires
        1970 <= a <= b,
    ensures
        days_before_year(a) <= days_before_year(b),
    decreases b - a,
{
    if a < b {
        lemma_days_before_year_monotonic(a, b - 1);
    }
}

proof fn lemma_months_fill_year(y: int)
    ensures
        days_before_month(y, 12) + days_in_month(y, 12) == days_in_year(y),
{
    reveal_with_fuel(days_before_month, 13);
}

/// The civil date lying `days` days after the Unix epoch, or `None` when
/// that date falls in year 10000 or beyond.
pub fn civil_from_days(days: u64) -> (r: Option<(u32, u32, u32)>)
    ensures
        r is None <==> days >= days_before_year(10000),
        r matches Some(t) ==> {
            &&& valid_date(t.0 as int, t.1 as int, t.2 as int)
            &&& 1970 <= t.0 <= 9999
            &&& days_from_civil(t.0 as int, t.1 as int, t.2 as int) == days
            &&& (t.0 as int, t.1 as int, t.2 as int) == civil_of_days(days as int)
        },
{
    let mut y: u32 = 1970;
    let mut rem: u64 = days;
    while y < 9999 && rem >= days_in_year_exec(y) as u64
        invariant
            1970 <= y <= 9999,
            days_before_year(y as int) + rem == days,
            spec_year_rem(1970, days as int) == spec_year_rem(y as int, rem as int),
        decreases 9999 - y,
    {
        rem = rem - days_in_year_exec(y) as u64;
        y = y + 1;
    }
    proof {
        assert(spec_year_rem(y as int, rem as int) == (y as int, rem as int));
    }
    if rem >= days_in_year_exec(y) as u64 {
        proof {
            lemma_days_before_year_monotonic(y as int, 9999);
            assert(days_before_year(10000) == days_before_year(9999) + days_in_year(9999));
        }
        return None;
    }
    proof {
        lemma_days_before_year_monotonic(y as int, 10000);
        assert(days_before_year(y as int + 1) == days_before_year(y as int) + days_in_year(
            y as int,
        ));
        lemma_days_before_year_monotonic(y as int + 1, 10000);
    }
    let mut rem32: u32 = rem as u32;
    let mut m: u32 = 1;
    while m < 12 && rem32 >= days_in_month_exec(y, m)
        invariant
            1 <= m <= 12,
            1970 <= y <= 9999,
            days_before_month(y as int, m as int) + rem32 == rem,
            rem < days_in_year(y as int),
            spec_month_rem(y as int, 1, rem as int) == spec_month_rem(y as int, m as int, rem32 as int),
        decreases 12 - m,
    {
        rem32 = rem32 - days_in_month_exec(y, m);
        m = m + 1;
    }
    proof {
        assert(spec_month_rem(y as int, m as int, rem32 as int) == (m as int, rem32 as int));
    }
    if rem32 >= days_in_month_exec(y, m) {
        proof {
            lemma_months_fill_year(y as int);
        }
        assert(false);
    }
    let d = rem32 + 1;
    Some((y, m, d))
}

fn push_digit(out: &mut String, n: u32)
    requires
        n < 10,
    ensures
        final(out)@ == old(out)@.push(digit_char(n as int)),
{
    let c = (48 + n) as u8 as char;
    proof {
        assert(c == digit_char(n as int));
    }
    push_char(out, c);
}

/// The canonical fixed-width text of a date and time.
pub fn format_canonical(y: u32, m: u32, d: u32, h: u32, mi: u32, s: u32) -> (r: String)
    requires
        valid_date(y as int, m as int, d as int),
        valid_time(h as int, mi as int, s as int),
    ensures
        r@ == canonical_seq(y as int, m as int, d as int, h as int, mi as int, s as int),
{
    let mut out = String::new();
    push_digit(&mut out, y / 1000);
    push_digit(&mut out, (y / 100) % 10);
    push_digit(&mut out, (y / 10) % 10);
    push_digit(&mut out, y % 10);
    push_char(&mut out, '-');
    push_digit(&mut out, m / 10);
    push_digit(&mut out, m % 10);
    push_char(&mut out, '-');
    push_digit(&mut out, d / 10);
    push_digit(&mut out, d % 10);
    push_char(&mut out, 'T');
    push_digit(&mut out, h / 10);
    push_digit(&mut out, h % 10);
    push_char(&mut out, ':');
    push_digit(&mut out, mi / 10);
    push_digit(&mut out, mi % 10);
    push_char(&mut out, ':');
    push_digit(&mut out, s / 10);
    push_digit(&mut out, s % 10);
    proof {
        assert(out@ =~= canonical_seq(
            y as int,
            m as int,
            d as int,
            h as int,
            mi as int,
            s as int,
        ));
    }
    out
}

/// The view of an optional string.
pub open spec fn opt_sv(r: Option<String>) -> Option<Seq<char>> {
    match r {
        None => None,
        Some(t) => Some(t@),
    }
}

/// What numeric normalization returns: nothing for day counts before the
/// Unix epoch or at year 10000 and beyond; otherwise the canonical text
/// of the civil date and time lying `numeric_secs` seconds after the
/// Unix epoch, so always a date on or after the epoch.
#[verifier::opaque]
pub open spec fn numeric_norm_post(milli_days: int, r: Option<Seq<char>>) -> bool {
    let secs = numeric_secs(milli_days);
    &&& (r is None <==> milli_days < EPOCH_MILLI_DAYS || secs >= 86400 * days_before_year(10000))
    &&& (r matches Some(t) ==> {
        &&& milli_days >= EPOCH_MILLI_DAYS
        &&& secs >= 0
        &&& exists|y: int, m: int, d: int|
            {
                &&& valid_date(y, m, d)
                &&& 1970 <= y <= 9999
                &&& #[trigger] days_from_civil(y, m, d) == secs / 86400
                &&& t == canonical_seq(
                    y,
                    m,
                    d,
                    (secs % 86400) / 3600,
                    ((secs % 86400) % 3600) / 60,
                    (secs % 86400) % 60,
                )
            }
    })
}

/// The stated contract of numeric normalization holds of its defining
/// function: the result is absent exactly off-range, and present
/// results render a valid civil date on or after the Unix epoch.
pub proof fn lemma_numeric_norm_meets_post(milli_days: int)
    ensures
        numeric_norm_post(milli_days, numeric_norm(milli_days)),
{
    reveal(numeric_norm);
    reveal(numeric_norm_post);
    if milli_days >= EPOCH_MILLI_DAYS {
        let sp = numeric_secs(milli_days);
        assert(sp >= 0) by {
            assert((milli_days - EPOCH_MILLI_DAYS) * 86400 >= 0);
        }
        let days = sp / 86400;
        let day_secs = sp % 86400;
        lemma_fundamental_div_mod(sp, 86400);
        assert(days >= 0);
        if days >= days_before_year(10000) {
            assert(86400 * days >= 86400 * days_before_year(10000)) by (nonlinear_arith)
                requires
                    days >= days_before_year(10000),
            ;
        } else {
            assert(86400 * (days + 1) <= 86400 * days_before_year(10000)) by (nonlinear_arith)
                requires
                    days + 1 <= days_before_year(10000),
            ;
            lemma_civil_of_days(days);
            let c = civil_of_days(days);
            assert(days_from_civil(c.0, c.1, c.2) == sp / 86400);
        }
    }
}

proof fn lemma_numeric_norm_none_low(milli_days: int)
    requires
        milli_days < EPOCH_MILLI_DAYS,
    ensures
        numeric_norm_post(milli_days, None),
        numeric_norm(milli_days) is None,
{
    reveal(numeric_norm);
    reveal(numeric_norm_post);
}

proof fn lemma_numeric_norm_none_high(milli_days: int, days: int, day_secs: int)
    requires
        milli_days >= EPOCH_MILLI_DAYS,
        days == numeric_secs(milli_days) / 86400,
        day_secs == numeric_secs(milli_days) % 86400,
        0 <= day_secs < 86400,
        days >= days_before_year(10000),
    ensures
        numeric_norm_post(milli_days, None),
        numeric_norm(milli_days) is None,
{
    reveal(numeric_norm);
    reveal(numeric_norm_post);
    let sp = numeric_secs(milli_days);
    lemma_fundamental_div_mod(sp, 86400);
    assert(sp == 86400 * days + day_secs);
    assert(86400 * days >= 86400 * days_before_year(10000)) by (nonlinear_arith)
        requires
            days >= days_before_year(10000),
    ;
}

proof fn lemma_numeric_norm_some(milli_days: int, days: int, day_secs: int, y: int, m: int, d: int)
    requires
        milli_days >= EPOCH_MILLI_DAYS,
        numeric_secs(milli_days) >= 0,
        days == numeric_secs(milli_days) / 86400,
        day_secs == numeric_secs(milli_days) % 86400,
        0 <= day_secs < 86400,
        days < days_before_year(10000),
        valid_date(y, m, d),
        1970 <= y <= 9999,
        days_from_civil(y, m, d) == days,
        (y, m, d) == civil_of_days(days),
    ensures
        ({
            let t = canonical_seq(
                y,
                m,
                d,
                day_secs / 3600,
                (day_secs % 3600) / 60,
                (day_secs % 3600) % 60,
            );
            &&& numeric_norm_post(milli_days, Some(t))
            &&& numeric_norm(milli_days) == Some(t)
        }),
{
    reveal(numeric_norm);
    reveal(numeric_norm_post);
    let sp = numeric_secs(milli_days);
    lemma_fundamental_div_mod(sp, 86400);
    assert(sp == 86400 * days + day_secs);
    assert(86400 * (days + 1) <= 86400 * days_before_year(10000)) by (nonlinear_arith)
        requires
            days + 1 <= days_before_year(10000),
    ;
    assert(sp < 86400 * days_before_year(10000));
    assert(days_from_civil(y, m, d) == sp / 86400);
    assert((day_secs % 3600) % 60 == day_secs % 60) by {
        lemma_mod_breakdown(day_secs, 60, 60);
        lemma_fundamental_div_mod(day_secs % 3600, 60);
        lemma_fundamental_div_mod(day_secs, 60);
        assert(day_secs % 3600 == 60 * ((day_secs / 60) % 60) + day_secs % 60);
        assert((60 * ((day_secs / 60) % 60) + day_secs % 60) % 60 == day_secs % 60) by {
            vstd::arithmetic::div_mod::lemma_mod_multiples_vanish(
                (day_secs / 60) % 60,
                day_secs % 60,
                60,
            );
        }
    }
}

/// The whole days and the seconds within the day that a day count
/// denotes past the Unix epoch.
#[verifier::rlimit(50)]
fn numeric_parts(milli_days: i64) -> (r: (u64, u32))
    requires
        milli_days >= EPOCH_MILLI_DAYS,
    ensures
        r.0 == numeric_secs(milli_days as int) / 86400,
        r.1 == numeric_secs(milli_days as int) % 86400,
        r.1 < 86400,
        numeric_secs(milli_days as int) == 86400 * (r.0 as int) + r.1,
        numeric_secs(milli_days as int) >= 0,
{
    let num: i128 = (milli_days as i128 - EPOCH_MILLI_DAYS as i128) * 86400;
    let secs: i128 = num / 1000;
    proof {
        assert(secs == numeric_secs(milli_days as int));
        assert(secs >= 0);
    }
    let days: u64 = (secs / 86400) as u64;
    let day_secs: u32 = (secs % 86400) as u32;
    (days, day_secs)
}

#[verifier::spinoff_prover]
#[verifier::rlimit(30)]
fn normalize_numeric_core(milli_days: i64) -> (r: Option<String>)
    ensures
        opt_sv(r) == numeric_norm(milli_days as int),
{
    if milli_days < EPOCH_MILLI_DAYS {
        proof {
            lemma_numeric_norm_none_low(milli_days as int);
        }
        return None;
    }
    let parts = numeric_parts(milli_days);
    let days = parts.0;
    let day_secs = parts.1;
    match civil_from_days(days) {
        None => {
            proof {
                lemma_numeric_norm_none_high(milli_days as int, days as int, day_secs as int);
            }
            None
        },
        Some((y, m, d)) => {
            proof {
                lemma_numeric_norm_some(
                    milli_days as int,
                    days as int,
                    day_secs as int,
                    y as int,
                    m as int,
                    d as int,
                );
            }
            let h = day_secs / 3600;
            let r1 = day_secs % 3600;
            let mi = r1 / 60;
            let sec = r1 % 60;
            let text = format_canonical(y, m, d, h, mi, sec);
            Some(text)
        },
    }
}

/// Normalizes a numeric day count, given in thousandths of a day since
/// the spreadsheet epoch, to canonical text.  Day counts before the Unix
/// epoch, and instants at year 10000 or beyond, yield no value.
pub fn normalize_numeric_date(milli_days: i64) -> (r: Option<String>)
    ensures
        numeric_norm_post(milli_days as int, opt_sv(r)),
        opt_sv(r) == numeric_norm(milli_days as int),
{
    let r = normalize_numeric_core(milli_days);
    proof {
        lemma_numeric_norm_meets_post(milli_days as int);
    }
    r
}

/// A decimal digit character.
pub open spec fn is_digit(c: char) -> bool {
    '0' <= c && c <= '9'
}

/// The value of a decimal digit character.
pub open spec fn digit_val(c: char) -> int {
    c as int - 48
}

/// The value of the two-digit number at position `i`.
pub open spec fn num2(s: Seq<char>, i: int) -> int {
    10 * digit_val(s[i]) + digit_val(s[i + 1])
}

/// The value of the four-digit number at position `i`.
pub open spec fn num4(s: Seq<char>, i: int) -> int {
    1000 * digit_val(s[i]) + 100 * digit_val(s[i + 1]) + 10 * digit_val(s[i + 2]) + digit_val(
        s[i + 3],
    )
}

/// The value of the digit field of length `k` (1 or 2) at position `i`.
pub open spec fn numk(s: Seq<char>, i: int, k: int) -> int {
    if k == 1 {
        digit_val(s[i])
    } else {
        num2(s, i)
    }
}

/// A digit field of length `k` (1 or 2) at position `i`.
pub open spec fn digits_at(s: Seq<char>, i: int, k: int) -> bool {
    if k == 1 {
        is_digit(s[i])
    } else {
        is_digit(s[i]) && is_digit(s[i + 1])
    }
}

/// The digit count of the month field of a year-first date: one digit
/// when the separator follows immediately, else two.
pub open spec fn ymd_ml(s: Seq<char>, sep: char) -> int {
    if 6 < s.len() && s[6] == sep {
        1
    } else {
        2
    }
}

/// A year-first date layout `YYYY<sep>M[M]<sep>D[D]` denoting a valid
/// date; month and day may be one or two digits.
pub open spec fn matches_ymd(s: Seq<char>, sep: char) -> bool {
    let ml = ymd_ml(s, sep);
    let dl = s.len() - 6 - ml;
    &&& 1 <= dl <= 2
    &&& is_digit(s[0]) && is_digit(s[1]) && is_digit(s[2]) && is_digit(s[3])
    &&& s[4] == sep
    &&& digits_at(s, 5, ml)
    &&& s[5 + ml] == sep
    &&& digits_at(s, 6 + ml, dl)
    &&& valid_date(num4(s, 0), numk(s, 5, ml), numk(s, 6 + ml, dl))
}

/// The year of a year-first date.
pub open spec fn ymd_year(s: Seq<char>) -> int {
    num4(s, 0)
}

/// The month of a year-first date.
pub open spec fn ymd_month(s: Seq<char>, sep: char) -> int {
    numk(s, 5, ymd_ml(s, sep))
}

/// The day of a year-first date.
pub open spec fn ymd_day(s: Seq<char>, sep: char) -> int {
    let ml = ymd_ml(s, sep);
    numk(s, 6 + ml, s.len() - 6 - ml)
}

/// The digit count of the day field of a day-first date.
pub open spec fn dmy_dl(s: Seq<char>, sep: char) -> int {
    if 1 < s.len() && s[1] == sep {
        1
    } else {
        2
    }
}

/// The digit count of the month field of a day-first date.
pub open spec fn dmy_ml(s: Seq<char>, sep: char) -> int {
    let dl = dmy_dl(s, sep);
    if dl + 2 < s.len() && s[dl + 2] == sep {
        1
    } else {
        2
    }
}

/// A day-first date layout `D[D]<sep>M[M]<sep>YYYY` denoting a valid
/// date; day and month may be one or two digits.
pub open spec fn matches_dmy(s: Seq<char>, sep: char) -> bool {
    let dl = dmy_dl(s, sep);
    let ml = dmy_ml(s, sep);
    &&& s.len() == dl + ml + 6
    &&& digits_at(s, 0, dl)
    &&& s[dl] == sep
    &&& digits_at(s, dl + 1, ml)
    &&& s[dl + 1 + ml] == sep
    &&& is_digit(s[dl + ml + 2]) && is_digit(s[dl + ml + 3]) && is_digit(s[dl + ml + 4])
        && is_digit(s[dl + ml + 5])
    &&& valid_date(num4(s, dl + ml + 2), numk(s, dl + 1, ml), numk(s, 0, dl))
}

/// The day of a day-first date.
pub open spec fn dmy_day(s: Seq<char>, sep: char) -> int {
    numk(s, 0, dmy_dl(s, sep))
}

/// The month of a day-first date.
pub open spec fn dmy_month(s: Seq<char>, sep: char) -> int {
    numk(s, dmy_dl(s, sep) + 1, dmy_ml(s, sep))
}

/// The year of a day-first date.
pub open spec fn dmy_year(s: Seq<char>, sep: char) -> int {
    num4(s, dmy_dl(s, sep) + dmy_ml(s, sep) + 2)
}

/// The fixed-width shape of an ISO date-time: every component two
/// digits.  The canonical output has this shape; the flexible matcher
/// below also accepts one-digit components.
pub open spec fn iso_dt_body(s: Seq<char>) -> bool {
    &&& is_digit(s[0]) && is_digit(s[1]) && is_digit(s[2]) && is_digit(s[3])
    &&& s[4] == '-'
    &&& is_digit(s[5]) && is_digit(s[6])
    &&& s[7] == '-'
    &&& is_digit(s[8]) && is_digit(s[9])
    &&& valid_date(num4(s, 0), num2(s, 5), num2(s, 8))
    &&& s[10] == 'T'
    &&& is_digit(s[11]) && is_digit(s[12])
    &&& s[13] == ':'
    &&& is_digit(s[14]) && is_digit(s[15])
    &&& s[16] == ':'
    &&& is_digit(s[17]) && is_digit(s[18])
    &&& valid_time(num2(s, 11), num2(s, 14), num2(s, 17))
}

/// The digit count of the month field of an ISO date-time.
pub open spec fn idt_ml(s: Seq<char>) -> int {
    if 6 < s.len() && s[6] == '-' {
        1
    } else {
        2
    }
}

/// The digit count of the day field of an ISO date-time.
pub open spec fn idt_dl(s: Seq<char>) -> int {
    let ml = idt_ml(s);
    if 7 + ml < s.len() && s[7 + ml] == 'T' {
        1
    } else {
        2
    }
}

/// The digit count of the hour field of an ISO date-time.
pub open spec fn idt_hl(s: Seq<char>) -> int {
    let p = 8 + idt_ml(s) + idt_dl(s);
    if p < s.len() && s[p] == ':' {
        1
    } else {
        2
    }
}

/// The digit count of the minute field of an ISO date-time.
pub open spec fn idt_minl(s: Seq<char>) -> int {
    let q = 9 + idt_ml(s) + idt_dl(s) + idt_hl(s);
    if q < s.len() && s[q] == ':' {
        1
    } else {
        2
    }
}

/// The ISO date-time layout `YYYY-M[M]-D[D]TH[H]:M[M]:S[S]` denoting a
/// valid instant; every component but the year may be one or two digits.
pub open spec fn matches_iso_dt(s: Seq<char>) -> bool {
    let ml = idt_ml(s);
    let dl = idt_dl(s);
    let hl = idt_hl(s);
    let minl = idt_minl(s);
    let ss = 9 + ml + dl + hl + minl;
    let sl = s.len() - ss;
    &&& 1 <= sl <= 2
    &&& is_digit(s[0]) && is_digit(s[1]) && is_digit(s[2]) && is_digit(s[3])
    &&& s[4] == '-'
    &&& digits_at(s, 5, ml)
    &&& s[5 + ml] == '-'
    &&& digits_at(s, 6 + ml, dl)
    &&& s[6 + ml + dl] == 'T'
    &&& digits_at(s, 7 + ml + dl, hl)
    &&& s[7 + ml + dl + hl] == ':'
    &&& digits_at(s, 8 + ml + dl + hl, minl)
    &&& s[8 + ml + dl + hl + minl] == ':'
    &&& digits_at(s, ss, sl)
    &&& valid_date(num4(s, 0), numk(s, 5, ml), numk(s, 6 + ml, dl))
    &&& valid_time(numk(s, 7 + ml + dl, hl), numk(s, 8 + ml + dl + hl, minl), numk(s, ss, sl))
}

/// The year of an ISO date-time.
pub open spec fn idt_year(s: Seq<char>) -> int {
    num4(s, 0)
}

/// The month of an ISO date-time.
pub open spec fn idt_month(s: Seq<char>) -> int {
    numk(s, 5, idt_ml(s))
}

/// The day of an ISO date-time.
pub open spec fn idt_day(s: Seq<char>) -> int {
    numk(s, 6 + idt_ml(s), idt_dl(s))
}

/// The hour of an ISO date-time.
pub open spec fn idt_hour(s: Seq<char>) -> int {
    numk(s, 7 + idt_ml(s) + idt_dl(s), idt_hl(s))
}

/// The minute of an ISO date-time.
pub open spec fn idt_min(s: Seq<char>) -> int {
    numk(s, 8 + idt_ml(s) + idt_dl(s) + idt_hl(s), idt_minl(s))
}

/// The second of an ISO date-time.
pub open spec fn idt_sec(s: Seq<char>) -> int {
    let ss = 9 + idt_ml(s) + idt_dl(s) + idt_hl(s) + idt_minl(s);
    numk(s, ss, s.len() - ss)
}

/// The ISO date-time layout with the trailing designator `Z`.
pub open spec fn matches_iso_dt_z(s: Seq<char>) -> bool {
    s.len() > 0 && s.last() == 'Z' && matches_iso_dt(s.drop_last())
}

/// What textual normalization returns: `None` for blank input; the
/// canonical text for input matching one of the supported layouts, tried
/// in a fixed order (date-only layouts normalize to midnight); and the
/// trimmed input verbatim when no layout matches.
pub open spec fn text_norm(s: Seq<char>) -> Option<Seq<char>> {
    let t = trim_seq(s);
    if t.len() == 0 {
        None
    } else if matches_ymd(t, '-') {
        Some(canonical_seq(ymd_year(t), ymd_month(t, '-'), ymd_day(t, '-'), 0, 0, 0))
    } else if matches_iso_dt(t) {
        Some(
            canonical_seq(
                idt_year(t),
                idt_month(t),
                idt_day(t),
                idt_hour(t),
                idt_min(t),
                idt_sec(t),
            ),
        )
    } else if matches_iso_dt_z(t) {
        let u = t.drop_last();
        Some(
            canonical_seq(
                idt_year(u),
                idt_month(u),
                idt_day(u),
                idt_hour(u),
                idt_min(u),
                idt_sec(u),
            ),
        )
    } else if matches_dmy(t, '.') {
        Some(canonical_seq(dmy_year(t, '.'), dmy_month(t, '.'), dmy_day(t, '.'), 0, 0, 0))
    } else if matches_dmy(t, '/') {
        Some(canonical_seq(dmy_year(t, '/'), dmy_month(t, '/'), dmy_day(t, '/'), 0, 0, 0))
    } else if matches_ymd(t, '/') {
        Some(canonical_seq(ymd_year(t), ymd_month(t, '/'), ymd_day(t, '/'), 0, 0, 0))
    } else {
        Some(t)
    }
}

/// Reads the two-digit number at position `i`, if both characters are digits.
fn read2(t: &str, i: usize) -> (r: Option<u32>)
    requires
        i <= 32,
        i + 2 <= t@.len(),
    ensures
        r is Some <==> is_digit(t@[i as int]) && is_digit(t@[i as int + 1]),
        r matches Some(v) ==> v == num2(t@, i as int) && v <= 99,
{
    let a = t.get_char(i) as u32;
    let b = t.get_char(i + 1) as u32;
    if 48 <= a && a <= 57 && 48 <= b && b <= 57 {
        Some((a - 48) * 10 + (b - 48))
    } else {
        None
    }
}

/// Reads the four-digit number at position `i`, if all four characters are digits.
fn read4(t: &str, i: usize) -> (r: Option<u32>)
    requires
        i <= 32,
        i + 4 <= t@.len(),
    ensures
        r is Some <==> is_digit(t@[i as int]) && is_digit(t@[i as int + 1]) && is_digit(
            t@[i as int + 2],
        ) && is_digit(t@[i as int + 3]),
        r matches Some(v) ==> v == num4(t@, i as int) && v <= 9999,
{
    let a = t.get_char(i) as u32;
    let b = t.get_char(i + 1) as u32;
    let c = t.get_char(i + 2) as u32;
    let d = t.get_char(i + 3) as u32;
    if 48 <= a && a <= 57 && 48 <= b && b <= 57 && 48 <= c && c <= 57 && 48 <= d && d <= 57 {
        Some((a - 48) * 1000 + (b - 48) * 100 + (c - 48) * 10 + (d - 48))
    } else {
        None
    }
}

fn sep_at(t: &str, i: usize, sep: char) -> (r: bool)
    requires
        i < t@.len(),
    ensures
        r == (t@[i as int] == sep),
{
    t.get_char(i) == sep
}

/// Whether the given numbers form a valid calendar date, executable form.
pub fn valid_date_exec(y: u32, m: u32, d: u32) -> (r: bool)
    ensures
        r == valid_date(y as int, m as int, d as int),
{
    y <= 9999 && 1 <= m && m <= 12 && 1 <= d && d <= days_in_month_exec(y, m)
}

/// Reads the digit field of length `k` (1 or 2) at position `i`.
fn read_k(t: &str, i: usize, k: usize) -> (r: Option<u32>)
    requires
        i <= 32,
        k == 1 || k == 2,
        i + k <= t@.len(),
    ensures
        r is Some <==> digits_at(t@, i as int, k as int),
        r matches Some(v) ==> v == numk(t@, i as int, k as int) && v <= 99,
{
    if k == 1 {
        let a = t.get_char(i) as u32;
        if 48 <= a && a <= 57 {
            Some(a - 48)
        } else {
            None
        }
    } else {
        read2(t, i)
    }
}

fn parse_ymd(t: &str, sep: char) -> (r: Option<(u32, u32, u32)>)
    ensures
        r is Some <==> matches_ymd(t@, sep),
        r matches Some(v) ==> v.0 == ymd_year(t@) && v.1 == ymd_month(t@, sep) && v.2 == ymd_day(
            t@,
            sep,
        ),
{
    let n = t.unicode_len();
    if n < 8 || n > 10 {
        proof {
            let ml = ymd_ml(t@, sep);
            assert(!(1 <= t@.len() - 6 - ml <= 2));
        }
        return None;
    }
    let y = match read4(t, 0) {
        Some(v) => v,
        None => { return None },
    };
    if !sep_at(t, 4, sep) {
        return None;
    }
    let ml: usize = if sep_at(t, 6, sep) {
        1
    } else {
        2
    };
    let m = match read_k(t, 5, ml) {
        Some(v) => v,
        None => { return None },
    };
    if !sep_at(t, 5 + ml, sep) {
        return None;
    }
    let dl: usize = n - 6 - ml;
    if dl < 1 || dl > 2 {
        return None;
    }
    let d = match read_k(t, 6 + ml, dl) {
        Some(v) => v,
        None => { return None },
    };
    if valid_date_exec(y, m, d) {
        Some((y, m, d))
    } else {
        None
    }
}

fn parse_dmy(t: &str, sep: char) -> (r: Option<(u32, u32, u32)>)
    ensures
        r is Some <==> matches_dmy(t@, sep),
        r matches Some(v) ==> v.0 == dmy_year(t@, sep) && v.1 == dmy_month(t@, sep) && v.2
            == dmy_day(t@, sep),
{
    let n = t.unicode_len();
    if n < 8 || n > 10 {
        return None;
    }
    let dl: usize = if sep_at(t, 1, sep) {
        1
    } else {
        2
    };
    let d = match read_k(t, 0, dl) {
        Some(v) => v,
        None => { return None },
    };
    if !sep_at(t, dl, sep) {
        return None;
    }
    let ml: usize = if sep_at(t, dl + 2, sep) {
        1
    } else {
        2
    };
    let m = match read_k(t, dl + 1, ml) {
        Some(v) => v,
        None => { return None },
    };
    if !sep_at(t, dl + 1 + ml, sep) {
        return None;
    }
    if n != dl + ml + 6 {
        return None;
    }
    let y = match read4(t, dl + ml + 2) {
        Some(v) => v,
        None => { return None },
    };
    if valid_date_exec(y, m, d) {
        Some((y, m, d))
    } else {
        None
    }
}

fn parse_iso_dt(t: &str) -> (r: Option<(u32, u32, u32, u32, u32, u32)>)
    ensures
        r is Some <==> matches_iso_dt(t@),
        r matches Some(v) ==> v.0 == idt_year(t@) && v.1 == idt_month(t@) && v.2 == idt_day(t@)
            && v.3 == idt_hour(t@) && v.4 == idt_min(t@) && v.5 == idt_sec(t@),
{
    let n = t.unicode_len();
    if n < 14 || n > 19 {
        proof {
            let ss = 9 + idt_ml(t@) + idt_dl(t@) + idt_hl(t@) + idt_minl(t@);
            assert(13 <= ss <= 17);
            assert(!(1 <= t@.len() - ss <= 2));
        }
        return None;
    }
    let y = match read4(t, 0) {
        Some(v) => v,
        None => { return None },
    };
    if !sep_at(t, 4, '-') {
        return None;
    }
    let ml: usize = if sep_at(t, 6, '-') {
        1
    } else {
        2
    };
    let m = match read_k(t, 5, ml) {
        Some(v) => v,
        None => { return None },
    };
    if !sep_at(t, 5 + ml, '-') {
        return None;
    }
    let dl: usize = if sep_at(t, 7 + ml, 'T') {
        1
    } else {
        2
    };
    let d = match read_k(t, 6 + ml, dl) {
        Some(v) => v,
        None => { return None },
    };
    if !sep_at(t, 6 + ml + dl, 'T') {
        return None;
    }
    let hl: usize = if sep_at(t, 8 + ml + dl, ':') {
        1
    } else {
        2
    };
    let h = match read_k(t, 7 + ml + dl, hl) {
        Some(v) => v,
        None => { return None },
    };
    if !sep_at(t, 7 + ml + dl + hl, ':') {
        return None;
    }
    let q = 9 + ml + dl + hl;
    let minl: usize = if q < n && sep_at(t, q, ':') {
        1
    } else {
        2
    };
    let min_start = 8 + ml + dl + hl;
    if min_start + minl > n {
        return None;
    }
    let mi = match read_k(t, min_start, minl) {
        Some(v) => v,
        None => { return None },
    };
    let colon2 = min_start + minl;
    if colon2 >= n {
        return None;
    }
    if !sep_at(t, colon2, ':') {
        return None;
    }
    let ss = colon2 + 1;
    let sl = n - ss;
    if sl < 1 || sl > 2 {
        return None;
    }
    let sec = match read_k(t, ss, sl) {
        Some(v) => v,
        None => { return None },
    };
    if !valid_date_exec(y, m, d) {
        return None;
    }
    if !(h <= 23 && mi <= 59 && sec <= 59) {
        return None;
    }
    Some((y, m, d, h, mi, sec))
}

/// Normalizes a textual date to the canonical fixed-width text.  Blank
/// input yields no value; input matching none of the supported layouts is
/// passed through trimmed but otherwise verbatim.
pub fn normalize_text_date(s: &str) -> (r: Option<String>)
    ensures
        opt_sv(r) == text_norm(s@),
{
    let t = trim_str(s);
    let n = t.unicode_len();
    if n == 0 {
        return None;
    }
    if let Some((y, m, d)) = parse_ymd(t, '-') {
        return Some(format_canonical(y, m, d, 0, 0, 0));
    }
    if let Some((y, m, d, h, mi, sec)) = parse_iso_dt(t) {
        return Some(format_canonical(y, m, d, h, mi, sec));
    }
    if sep_at(t, n - 1, 'Z') {
        let u = t.substring_char(0, n - 1);
        proof {
            assert(u@ =~= t@.drop_last());
        }
        if let Some((y, m, d, h, mi, sec)) = parse_iso_dt(u) {
            return Some(format_canonical(y, m, d, h, mi, sec));
        }
    }
    if let Some((y, m, d)) = parse_dmy(t, '.') {
        return Some(format_canonical(y, m, d, 0, 0, 0));
    }
    if let Some((y, m, d)) = parse_dmy(t, '/') {
        return Some(format_canonical(y, m, d, 0, 0, 0));
    }
    if let Some((y, m, d)) = parse_ymd(t, '/') {
        return Some(format_canonical(y, m, d, 0, 0, 0));
    }
    Some(t.to_owned())
}


/// One heterogeneous date input: a numeric day count (in thousandths of
/// a day since the spreadsheet epoch) or free text.
pub enum DateValue {
    Numeric(i64),
    Text(String),
}

/// What flexible normalization returns for each input shape.
pub open spec fn flexible_norm_post(value: Option<DateValue>, r: Option<Seq<char>>) -> bool {
    match value {
        None => r is None,
        Some(DateValue::Numeric(md)) => numeric_norm_post(md as int, r),
        Some(DateValue::Text(s)) => r == text_norm(s@),
    }
}

/// Normalizes one optional date value of unknown shape.  Never fails:
/// out-of-range numbers and blank text yield no value, and non-empty text
/// matching no known layout passes through trimmed but otherwise verbatim.
pub fn normalize_flexible_date(value: Option<&DateValue>) -> (r: Option<String>)
    ensures
        flexible_norm_post(
            match value {
                None => None,
                Some(v) => Some(*v),
            },
            opt_sv(r),
        ),
{
    match value {
        None => None,
        Some(DateValue::Numeric(md)) => normalize_numeric_date(*md),
        Some(DateValue::Text(s)) => normalize_text_date(s.as_str()),
    }
}

proof fn lemma_digits2(n: int)
    requires
        0 <= n <= 99,
    ensures
        10 * (n / 10) + n % 10 == n,
{
    lemma_fundamental_div_mod(n, 10);
}

proof fn lemma_digits4(n: int)
    requires
        0 <= n <= 9999,
    ensures
        1000 * (n / 1000) + 100 * ((n / 100) % 10) + 10 * ((n / 10) % 10) + n % 10 == n,
{
    lemma_fundamental_div_mod(n, 1000);
    lemma_mod_breakdown(n, 100, 10);
    lemma_mod_breakdown(n, 10, 10);
}

proof fn lemma_trim_no_ws(s: Seq<char>)
    requires
        forall|k: int| 0 <= k < s.len() ==> !is_space(s[k]),
    ensures
        trim_seq(s) == s,
{
}

/// A digit character round-trips through its value and is not whitespace.
proof fn lemma_digit_char_facts(n: int)
    requires
        0 <= n <= 9,
    ensures
        is_digit(digit_char(n)),
        digit_val(digit_char(n)) == n,
        !is_space(digit_char(n)),
{
}

/// The characters of the canonical text, one position at a time.
proof fn lemma_canonical_shape(y: int, m: int, d: int, h: int, mi: int, s: int)
    ensures
        canonical_seq(y, m, d, h, mi, s).len() == 19,
        canonical_seq(y, m, d, h, mi, s)[0] == digit_char(y / 1000),
        canonical_seq(y, m, d, h, mi, s)[1] == digit_char((y / 100) % 10),
        canonical_seq(y, m, d, h, mi, s)[2] == digit_char((y / 10) % 10),
        canonical_seq(y, m, d, h, mi, s)[3] == digit_char(y % 10),
        canonical_seq(y, m, d, h, mi, s)[4] == '-',
        canonical_seq(y, m, d, h, mi, s)[5] == digit_char(m / 10),
        canonical_seq(y, m, d, h, mi, s)[6] == digit_char(m % 10),
        canonical_seq(y, m, d, h, mi, s)[7] == '-',
        canonical_seq(y, m, d, h, mi, s)[8] == digit_char(d / 10),
        canonical_seq(y, m, d, h, mi, s)[9] == digit_char(d % 10),
        canonical_seq(y, m, d, h, mi, s)[10] == 'T',
        canonical_seq(y, m, d, h, mi, s)[11] == digit_char(h / 10),
        canonical_seq(y, m, d, h, mi, s)[12] == digit_char(h % 10),
        canonical_seq(y, m, d, h, mi, s)[13] == ':',
        canonical_seq(y, m, d, h, mi, s)[14] == digit_char(mi / 10),
        canonical_seq(y, m, d, h, mi, s)[15] == digit_char(mi % 10),
        canonical_seq(y, m, d, h, mi, s)[16] == ':',
        canonical_seq(y, m, d, h, mi, s)[17] == digit_char(s / 10),
        canonical_seq(y, m, d, h, mi, s)[18] == digit_char(s % 10),
{
}

/// The digit groups of a valid date and time are in digit range.
proof fn lemma_component_digit_bounds(y: int, m: int, d: int, h: int, mi: int, s: int)
    requires
        valid_date(y, m, d),
        valid_time(h, mi, s),
    ensures
        0 <= y / 1000 <= 9 && 0 <= (y / 100) % 10 <= 9 && 0 <= (y / 10) % 10 <= 9 && 0 <= y % 10
            <= 9,
        0 <= m / 10 <= 9 && 0 <= m % 10 <= 9,
        0 <= d / 10 <= 9 && 0 <= d % 10 <= 9,
        0 <= h / 10 <= 9 && 0 <= h % 10 <= 9,
        0 <= mi / 10 <= 9 && 0 <= mi % 10 <= 9,
        0 <= s / 10 <= 9 && 0 <= s % 10 <= 9,
{
}

/// Each character of the canonical text, and the fact that reading the
/// digit groups back recovers the original components.
proof fn lemma_canonical_parts(y: int, m: int, d: int, h: int, mi: int, s: int)
    requires
        valid_date(y, m, d),
        valid_time(h, mi, s),
    ensures
        canonical_seq(y, m, d, h, mi, s).len() == 19,
        iso_dt_body(canonical_seq(y, m, d, h, mi, s)),
        num4(canonical_seq(y, m, d, h, mi, s), 0) == y,
        num2(canonical_seq(y, m, d, h, mi, s), 5) == m,
        num2(canonical_seq(y, m, d, h, mi, s), 8) == d,
        num2(canonical_seq(y, m, d, h, mi, s), 11) == h,
        num2(canonical_seq(y, m, d, h, mi, s), 14) == mi,
        num2(canonical_seq(y, m, d, h, mi, s), 17) == s,
        forall|k: int|
            0 <= k < 19 ==> !is_space(#[trigger] canonical_seq(y, m, d, h, mi, s)[k]),
{
    let c = canonical_seq(y, m, d, h, mi, s);
    lemma_canonical_shape(y, m, d, h, mi, s);
    lemma_component_digit_bounds(y, m, d, h, mi, s);
    lemma_digit_char_facts(y / 1000);
    lemma_digit_char_facts((y / 100) % 10);
    lemma_digit_char_facts((y / 10) % 10);
    lemma_digit_char_facts(y % 10);
    lemma_digit_char_facts(m / 10);
    lemma_digit_char_facts(m % 10);
    lemma_digit_char_facts(d / 10);
    lemma_digit_char_facts(d % 10);
    lemma_digit_char_facts(h / 10);
    lemma_digit_char_facts(h % 10);
    lemma_digit_char_facts(mi / 10);
    lemma_digit_char_facts(mi % 10);
    lemma_digit_char_facts(s / 10);
    lemma_digit_char_facts(s % 10);
    assert(num4(c, 0) == y) by {
        lemma_digits4(y);
    }
    assert(num2(c, 5) == m) by {
        lemma_digits2(m);
    }
    assert(num2(c, 8) == d) by {
        lemma_digits2(d);
    }
    assert(num2(c, 11) == h) by {
        lemma_digits2(h);
    }
    assert(num2(c, 14) == mi) by {
        lemma_digits2(mi);
    }
    assert(num2(c, 17) == s) by {
        lemma_digits2(s);
    }
    assert forall|k: int| 0 <= k < 19 implies !is_space(#[trigger] c[k]) by {
        assert(c[4] == '-' && c[7] == '-' && c[10] == 'T' && c[13] == ':' && c[16] == ':');
    }
}

/// Canonical text normalizes to itself.
proof fn lemma_canonical_normalizes(y: int, m: int, d: int, h: int, mi: int, s: int)
    requires
        valid_date(y, m, d),
        valid_time(h, mi, s),
    ensures
        text_norm(canonical_seq(y, m, d, h, mi, s)) == Some(canonical_seq(y, m, d, h, mi, s)),
{
    let c = canonical_seq(y, m, d, h, mi, s);
    lemma_canonical_parts(y, m, d, h, mi, s);
    lemma_trim_no_ws(c);
    assert(!matches_ymd(c, '-'));
    assert(idt_ml(c) == 2);
    assert(idt_dl(c) == 2);
    assert(idt_hl(c) == 2);
    assert(idt_minl(c) == 2);
    assert(matches_iso_dt(c));
    assert(idt_year(c) == y && idt_month(c) == m && idt_day(c) == d && idt_hour(c) == h
        && idt_min(c) == mi && idt_sec(c) == s);
    assert(text_norm(c) == Some(
        canonical_seq(idt_year(c), idt_month(c), idt_day(c), idt_hour(c), idt_min(c), idt_sec(c)),
    ));
}

/// Normalizing a textual date is idempotent: whatever textual
/// normalization returns — canonical text from a recognized layout, or
/// the trimmed verbatim fallback — normalizing that result again
/// reproduces it unchanged.
pub proof fn lemma_text_norm_idempotent(s: Seq<char>)
    ensures
        text_norm(s) matches Some(t) ==> text_norm(t) == Some(t),
{
    if text_norm(s) is Some {
        let t0 = trim_seq(s);
        if matches_ymd(t0, '-') {
            lemma_canonical_normalizes(ymd_year(t0), ymd_month(t0, '-'), ymd_day(t0, '-'), 0, 0, 0);
        } else if matches_iso_dt(t0) {
            lemma_canonical_normalizes(
                idt_year(t0),
                idt_month(t0),
                idt_day(t0),
                idt_hour(t0),
                idt_min(t0),
                idt_sec(t0),
            );
        } else if matches_iso_dt_z(t0) {
            let u = t0.drop_last();
            lemma_canonical_normalizes(
                idt_year(u),
                idt_month(u),
                idt_day(u),
                idt_hour(u),
                idt_min(u),
                idt_sec(u),
            );
        } else if matches_dmy(t0, '.') {
            lemma_canonical_normalizes(
                dmy_year(t0, '.'), dmy_month(t0, '.'), dmy_day(t0, '.'), 0, 0, 0,
            );
        } else if matches_dmy(t0, '/') {
            lemma_canonical_normalizes(
                dmy_year(t0, '/'), dmy_month(t0, '/'), dmy_day(t0, '/'), 0, 0, 0,
            );
        } else if matches_ymd(t0, '/') {
            lemma_canonical_normalizes(ymd_year(t0), ymd_month(t0, '/'), ymd_day(t0, '/'), 0, 0, 0);
        } else {
            lemma_trim_seq_clean(s);
        }
    }
}

} // verus!
