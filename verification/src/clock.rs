use vstd::prelude::*;

use crate::text::{concat, decimal, decimal_text, push_char};

verus! {

/// A leap year of the Gregorian calendar.
pub open spec fn is_leap(y: int) -> bool {
    (y % 4 == 0 && y % 100 != 0) || y % 400 == 0
}

pub open spec fn year_days(y: int) -> int {
    if is_leap(y) { 366 } else { 365 }
}

pub open spec fn month_days(y: int, m: int) -> int {
    if m == 2 {
        if is_leap(y) { 29 } else { 28 }
    } else if m == 4 || m == 6 || m == 9 || m == 11 {
        30
    } else {
        31
    }
}

/// The days from 1970-01-01 to the first of January of year `y`.
pub open spec fn days_to_year(y: int) -> int
    decreases y - 1970,
{
    if y <= 1970 { 0 } else { days_to_year(y - 1) + year_days(y - 1) }
}

/// The days from the first of January to the first of month `m` of year `y`.
pub open spec fn days_to_month(y: int, m: int) -> int
    decreases m,
{
    if m <= 1 { 0 } else { days_to_month(y, m - 1) + month_days(y, m - 1) }
}

/// The calendar date and time of day (UTC) that lie `secs` seconds after the Unix epoch:
/// year, month, day, hour, minute and second.
pub open spec fn is_utc_time(secs: nat, t: (int, int, int, int, int, int)) -> bool {
    &&& t.0 >= 1970
    &&& 1 <= t.1 <= 12
    &&& 1 <= t.2 <= month_days(t.0, t.1)
    &&& 0 <= t.3 < 24 && 0 <= t.4 < 60 && 0 <= t.5 < 60
    &&& secs == (days_to_year(t.0) + days_to_month(t.0, t.1) + t.2 - 1) * 86400 + t.3 * 3600 + t.4 * 60 + t.5
}

/// A number in decimal, with leading zeros up to `width` digits.
pub open spec fn padded(n: nat, width: nat) -> Seq<char> {
    if decimal(n).len() < width {
        Seq::new((width - decimal(n).len()) as nat, |i: int| '0') + decimal(n)
    } else {
        decimal(n)
    }
}

/// A time written as ISO 8601 in UTC: `YYYY-MM-DDTHH:MM:SSZ`.
pub open spec fn iso_text(t: (int, int, int, int, int, int)) -> Seq<char> {
    padded(t.0 as nat, 4) + seq!['-'] + padded(t.1 as nat, 2) + seq!['-'] + padded(t.2 as nat, 2) + seq!['T']
        + padded(t.3 as nat, 2) + seq![':'] + padded(t.4 as nat, 2) + seq![':'] + padded(t.5 as nat, 2) + seq!['Z']
}

/// Whether a text writes, as ISO 8601 in UTC, the time `secs` seconds after the Unix epoch.
pub open spec fn is_iso_time_text(text: Seq<char>, secs: nat) -> bool {
    exists|t: (int, int, int, int, int, int)| #[trigger] is_utc_time(secs, t) && text == iso_text(t)
}

fn padded_text(n: u64, width: usize) -> (res: String)
    ensures
        res@ == padded(n as nat, width as nat),
{
    let digits = decimal_text(n as u128);
    let len = digits.unicode_len();
    let mut zeros = String::new();
    let mut k: usize = len;
    while k < width
        invariant
            len == decimal(n as nat).len(),
            len <= k <= width || (k == len && len >= width),
            zeros@ == Seq::new((k - len) as nat, |i: int| '0'),
        decreases width - k,
    {
        push_char(&mut zeros, '0');
        proof {
            assert(zeros@ =~= Seq::new((k + 1 - len) as nat, |i: int| '0'));
        }
        k = k + 1;
    }
    let res = concat(zeros.as_str(), digits.as_str());
    proof {
        if len >= width {
            assert(zeros@ =~= Seq::<char>::empty());
            assert(res@ =~= decimal(n as nat));
        }
    }
    res
}

fn year_len(y: u64) -> (res: u64)
    ensures
        res == year_days(y as int),
{
    if (y % 4 == 0 && y % 100 != 0) || y % 400 == 0 { 366 } else { 365 }
}

fn month_len(y: u64, m: u64) -> (res: u64)
    ensures
        res == month_days(y as int, m as int),
{
    if m == 2 {
        if (y % 4 == 0 && y % 100 != 0) || y % 400 == 0 { 29 } else { 28 }
    } else if m == 4 || m == 6 || m == 9 || m == 11 {
        30
    } else {
        31
    }
}

proof fn lemma_year_is_twelve_months(y: int)
    ensures
        days_to_month(y, 13) == year_days(y),
{
    reveal_with_fuel(days_to_month, 13);
}

/// Writes the time `secs` seconds after the Unix epoch as ISO 8601 in UTC
/// (`YYYY-MM-DDTHH:MM:SSZ`).
pub fn iso_time_text(secs: u64) -> (res: String)
    ensures
        is_iso_time_text(res@, secs as nat),
{
    let total_days = secs / 86400;
    let rem = secs % 86400;
    let h = rem / 3600;
    let mi = (rem % 3600) / 60;
    let s = rem % 60;
    let mut days = total_days;
    let mut y: u64 = 1970;
    while days >= year_len(y)
        invariant
            y >= 1970,
            y - 1970 <= total_days - days,
            days <= total_days,
            total_days == secs / 86400,
            days_to_year(y as int) + days == total_days,
        decreases days,
    {
        days = days - year_len(y);
        y = y + 1;
    }
    let mut m: u64 = 1;
    proof {
        lemma_year_is_twelve_months(y as int);
    }
    while days >= month_len(y, m)
        invariant
            1 <= m <= 12,
            days_to_month(y as int, m as int) + days < year_days(y as int),
            days_to_month(y as int, 13) == year_days(y as int),
            days_to_year(y as int) + days_to_month(y as int, m as int) + days == total_days,
        decreases days,
    {
        days = days - month_len(y, m);
        m = m + 1;
        proof {
            if m == 13 {
                assert(days_to_month(y as int, 13) == days_to_month(y as int, 12) + month_days(y as int, 12));
            }
        }
    }
    let d = days + 1;
    let ghost t = (y as int, m as int, d as int, h as int, mi as int, s as int);
    proof {
        assert(secs == total_days * 86400 + rem);
        assert(rem == h * 3600 + mi * 60 + s);
        assert(is_utc_time(secs as nat, t));
    }
    let text = concat(padded_text(y, 4).as_str(), "-");
    let text = concat(text.as_str(), padded_text(m, 2).as_str());
    let text = concat(text.as_str(), "-");
    let text = concat(text.as_str(), padded_text(d, 2).as_str());
    let text = concat(text.as_str(), "T");
    let text = concat(text.as_str(), padded_text(h, 2).as_str());
    let text = concat(text.as_str(), ":");
    let text = concat(text.as_str(), padded_text(mi, 2).as_str());
    let text = concat(text.as_str(), ":");
    let text = concat(text.as_str(), padded_text(s, 2).as_str());
    let text = concat(text.as_str(), "Z");
    proof {
        reveal_strlit("-");
        reveal_strlit("T");
        reveal_strlit(":");
        reveal_strlit("Z");
        assert(text@ =~= iso_text(t));
    }
    text
}

/// The months of the Gregorian calendar: April, June, September and November have 30 days,
/// February 29 in a leap year and 28 otherwise, and every other month 31; a year is a leap year
/// when its number divides by 4, except centuries whose number does not divide by 400.
pub proof fn law_gregorian_months(y: int, m: int)
    requires
        1 <= m <= 12,
    ensures
        is_leap(y) <==> (y % 4 == 0 && (y % 100 != 0 || y % 400 == 0)),
        m == 4 || m == 6 || m == 9 || m == 11 ==> month_days(y, m) == 30,
        m == 2 && is_leap(y) ==> month_days(y, m) == 29,
        m == 2 && !is_leap(y) ==> month_days(y, m) == 28,
        m == 1 || m == 3 || m == 5 || m == 7 || m == 8 || m == 10 || m == 12 ==> month_days(y, m) == 31,
        year_days(y) == if is_leap(y) { 366int } else { 365int },
{
}

/// The days before the first of each month, as the calendar counts them: 0, 31, 59, 90, 120,
/// 151, 181, 212, 243, 273, 304 and 334, one more from March on in a leap year.
pub proof fn law_days_before_month(y: int)
    ensures
        ({
            let leap: int = if is_leap(y) { 1 } else { 0 };
            &&& days_to_month(y, 1) == 0
            &&& days_to_month(y, 2) == 31
            &&& days_to_month(y, 3) == 59 + leap
            &&& days_to_month(y, 4) == 90 + leap
            &&& days_to_month(y, 5) == 120 + leap
            &&& days_to_month(y, 6) == 151 + leap
            &&& days_to_month(y, 7) == 181 + leap
            &&& days_to_month(y, 8) == 212 + leap
            &&& days_to_month(y, 9) == 243 + leap
            &&& days_to_month(y, 10) == 273 + leap
            &&& days_to_month(y, 11) == 304 + leap
            &&& days_to_month(y, 12) == 334 + leap
            &&& days_to_month(y, 13) == 365 + leap
        }),
{
    reveal_with_fuel(days_to_month, 13);
}

/// The days from the epoch to the first of January of a year after it: 365 for each year
/// between, one more for each leap year among them (for example 10957 days to 2000, 19723 to
/// 2024).
pub proof fn law_days_to_year(y: int)
    requires
        y >= 1970,
    ensures
        days_to_year(y + 1) == days_to_year(y) + year_days(y),
        days_to_year(1970) == 0,
        days_to_year(1971) == 365,
        days_to_year(1973) == 1096,
{
    reveal_with_fuel(days_to_year, 4);
}

proof fn lemma_days_to_year_grows(a: int, b: int)
    requires
        1970 <= a < b,
    ensures
        days_to_year(a) + year_days(a) <= days_to_year(b),
    decreases b - a,
{
    if b > a + 1 {
        lemma_days_to_year_grows(a, b - 1);
    }
}

proof fn lemma_days_to_month_grows(y: int, a: int, b: int)
    requires
        1 <= a < b,
    ensures
        days_to_month(y, a) + month_days(y, a) <= days_to_month(y, b),
    decreases b - a,
{
    if b > a + 1 {
        lemma_days_to_month_grows(y, a, b - 1);
    }
}

proof fn lemma_quotient_unique(q1: int, r1: int, q2: int, r2: int, n: int)
    by (nonlinear_arith)
    requires
        n > 0,
        0 <= r1 < n,
        0 <= r2 < n,
        q1 * n + r1 == q2 * n + r2,
    ensures
        q1 == q2,
        r1 == r2,
{
    if q1 < q2 {
        assert(q1 * n + n <= q2 * n);
    } else if q2 < q1 {
        assert(q2 * n + n <= q1 * n);
    }
}

/// The day of its year on which a date falls, counted from 0, lies within that year.
proof fn lemma_day_of_year_in_year(y: int, m: int, d: int)
    requires
        1 <= m <= 12,
        1 <= d <= month_days(y, m),
    ensures
        0 <= days_to_month(y, m) + d - 1 < year_days(y),
{
    lemma_year_is_twelve_months(y);
    lemma_days_to_month_grows(y, m, 13);
    if m > 1 {
        lemma_days_to_month_grows(y, 1, m);
    }
}

/// An instant has one calendar date and time of day: two readings of the same number of
/// seconds after the epoch agree in year, month, day, hour, minute and second.
pub proof fn law_utc_time_unique(secs: nat, t1: (int, int, int, int, int, int), t2: (int, int, int, int, int, int))
    requires
        is_utc_time(secs, t1),
        is_utc_time(secs, t2),
    ensures
        t1 == t2,
{
    let k1 = days_to_month(t1.0, t1.1) + t1.2 - 1;
    let k2 = days_to_month(t2.0, t2.1) + t2.2 - 1;
    lemma_day_of_year_in_year(t1.0, t1.1, t1.2);
    lemma_day_of_year_in_year(t2.0, t2.1, t2.2);
    let r1 = t1.3 * 3600 + t1.4 * 60 + t1.5;
    let r2 = t2.3 * 3600 + t2.4 * 60 + t2.5;
    lemma_quotient_unique(days_to_year(t1.0) + k1, r1, days_to_year(t2.0) + k2, r2, 86400);
    lemma_quotient_unique(t1.3, t1.4 * 60 + t1.5, t2.3, t2.4 * 60 + t2.5, 3600);
    lemma_quotient_unique(t1.4, t1.5, t2.4, t2.5, 60);
    if t1.0 < t2.0 {
        lemma_days_to_year_grows(t1.0, t2.0);
    } else if t2.0 < t1.0 {
        lemma_days_to_year_grows(t2.0, t1.0);
    }
    assert(t1.0 == t2.0);
    if t1.1 < t2.1 {
        lemma_days_to_month_grows(t1.0, t1.1, t2.1);
    } else if t2.1 < t1.1 {
        lemma_days_to_month_grows(t1.0, t2.1, t1.1);
    }
}

/// The ISO 8601 text of an instant is determined by the instant: two texts that both write
/// the same number of seconds after the epoch are the same text.
pub proof fn law_iso_time_text_unique(text1: Seq<char>, text2: Seq<char>, secs: nat)
    requires
        is_iso_time_text(text1, secs),
        is_iso_time_text(text2, secs),
    ensures
        text1 == text2,
{
    let t1 = choose|t: (int, int, int, int, int, int)| #[trigger] is_utc_time(secs, t) && text1 == iso_text(t);
    let t2 = choose|t: (int, int, int, int, int, int)| #[trigger] is_utc_time(secs, t) && text2 == iso_text(t);
    law_utc_time_unique(secs, t1, t2);
}

} // verus!
