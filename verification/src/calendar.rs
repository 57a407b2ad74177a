//! A verified proleptic-Gregorian calendar: dates as year, month and
//! day, day numbering, weekday computation and single-day steps. Day 0
//! is the first of year 1, a Monday.

use vstd::prelude::*;

use vstd::arithmetic::div_mod::{lemma_fundamental_div_mod, lemma_fundamental_div_mod_converse};

use crate::text::{four_digit_str, four_digit_string, two_digit_str, two_digit_string};

verus! {

/// A calendar date.
#[derive(Clone, Copy, PartialEq, Eq, Structural, Debug)]
pub struct Date {
    pub year: u32,
    pub month: u32,
    pub day: u32,
}

/// The Gregorian leap-year rule.
pub open spec fn is_leap_year(y: int) -> bool {
    (y % 4 == 0 && y % 100 != 0) || y % 400 == 0
}

/// The length of a month.
pub open spec fn days_in_month(y: int, m: int) -> int {
    if m == 2 {
        if is_leap_year(y) {
            29
        } else {
            28
        }
    } else if m == 4 || m == 6 || m == 9 || m == 11 {
        30
    } else {
        31
    }
}

impl Date {
    /// A real date: year 1 through 9999, month and day in range.
    pub open spec fn wf(&self) -> bool {
        1 <= self.year <= 9999 && 1 <= self.month <= 12 && 1 <= self.day <= days_in_month(
            self.year as int,
            self.month as int,
        )
    }

    /// The first representable date.
    pub open spec fn min_spec() -> Date {
        Date { year: 1, month: 1, day: 1 }
    }

    /// The last representable date.
    pub open spec fn max_spec() -> Date {
        Date { year: 9999, month: 12, day: 31 }
    }
}

/// Days of the months before month `m` in year `y`.
pub open spec fn days_before_month(y: int, m: int) -> int
    decreases m,
{
    if m <= 1 {
        0
    } else {
        days_before_month(y, m - 1) + days_in_month(y, m - 1)
    }
}

/// Leap years among years 1 through `n`.
pub open spec fn leap_count(n: int) -> int {
    n / 4 - n / 100 + n / 400
}

/// Days of the years before year `y`.
pub open spec fn days_before_year(y: int) -> int {
    365 * (y - 1) + leap_count(y - 1)
}

/// Days between the first of year 1 and this date.
pub open spec fn day_number(d: Date) -> int {
    days_before_year(d.year as int) + days_before_month(d.year as int, d.month as int) + d.day - 1
}

/// The weekday as days since Monday: the first of year 1 is day 0 and
/// a Monday, so weekday 0 is Monday and 6 is Sunday.
pub open spec fn weekday_spec(d: Date) -> int {
    day_number(d) % 7
}

/// Structural date order: by year, then month, then day.
pub open spec fn date_lt(a: Date, b: Date) -> bool {
    a.year < b.year || (a.year == b.year && (a.month < b.month || (a.month == b.month && a.day
        < b.day)))
}

/// Leap-year test.
pub fn is_leap(y: u32) -> (r: bool)
    ensures
        r == is_leap_year(y as int),
{
    (y % 4 == 0 && y % 100 != 0) || y % 400 == 0
}

/// The length of a month.
pub fn days_in_month_of(y: u32, m: u32) -> (r: u32)
    ensures
        r as int == days_in_month(y as int, m as int),
{
    if m == 2 {
        if is_leap(y) {
            29
        } else {
            28
        }
    } else if m == 4 || m == 6 || m == 9 || m == 11 {
        30
    } else {
        31
    }
}

/// Days of the months before month `m`.
fn days_before_month_of(y: u32, m: u32) -> (r: u32)
    requires
        m <= 13,
    ensures
        r as int == days_before_month(y as int, m as int),
        r <= 500,
{
    let mut r: u32 = 0;
    let mut k: u32 = 1;
    while k < m
        invariant
            1 <= k <= 13,
            m <= 13,
            k <= m || k == 1,
            r as int == days_before_month(y as int, k as int),
            r <= 31 * (k - 1),
        decreases m - k,
    {
        r = r + days_in_month_of(y, k);
        k = k + 1;
    }
    r
}

/// Days between the first of year 1 and this date.
pub fn day_number_of(d: Date) -> (r: u32)
    requires
        d.wf(),
    ensures
        r as int == day_number(d),
        r < 3_700_000,
{
    let y1 = d.year - 1;
    let before_years = 365 * y1 + y1 / 4 - y1 / 100 + y1 / 400;
    let before_months = days_before_month_of(d.year, d.month);
    before_years + before_months + (d.day - 1)
}

/// The weekday as days since Monday.
pub fn weekday(d: Date) -> (r: u32)
    requires
        d.wf(),
    ensures
        r as int == weekday_spec(d),
        r < 7,
{
    day_number_of(d) % 7
}

/// Compares two dates.
pub fn date_before(a: Date, b: Date) -> (r: bool)
    ensures
        r == date_lt(a, b),
{
    a.year < b.year || (a.year == b.year && (a.month < b.month || (a.month == b.month && a.day
        < b.day)))
}

/// One step of integer division: the quotient grows exactly on
/// multiples.
proof fn lemma_div_step(n: int, k: int)
    requires
        n >= 1,
        k >= 1,
    ensures
        n / k - (n - 1) / k == if n % k == 0 {
            1int
        } else {
            0int
        },
{
    lemma_fundamental_div_mod(n, k);
    let q = n / k;
    let r = n % k;
    if r == 0 {
        assert((q - 1) * k + (k - 1) == n - 1) by (nonlinear_arith)
            requires
                n == k * q,
        ;
        lemma_fundamental_div_mod_converse(n - 1, k, q - 1, k - 1);
    } else {
        assert(q * k + (r - 1) == n - 1) by (nonlinear_arith)
            requires
                n == k * q + r,
        ;
        lemma_fundamental_div_mod_converse(n - 1, k, q, r - 1);
    }
}

/// A year has 365 days plus its leap day.
proof fn lemma_year_length(y: int)
    requires
        y >= 1,
    ensures
        days_before_year(y + 1) == days_before_year(y) + 365 + if is_leap_year(y) {
            1int
        } else {
            0int
        },
{
    lemma_div_step(y, 4);
    lemma_div_step(y, 100);
    lemma_div_step(y, 400);
    if y % 400 == 0 {
        lemma_div_chain(y);
    }
    if y % 100 == 0 {
        lemma_div_chain_100(y);
    }
}

/// Divisibility by 400 implies divisibility by 100 and 4.
proof fn lemma_div_chain(y: int)
    requires
        y >= 1,
        y % 400 == 0,
    ensures
        y % 100 == 0,
        y % 4 == 0,
{
    lemma_fundamental_div_mod(y, 400);
    lemma_fundamental_div_mod_converse(y, 100, 4 * (y / 400), 0);
    lemma_fundamental_div_mod_converse(y, 4, 100 * (y / 400), 0);
}

/// Divisibility by 100 implies divisibility by 4.
proof fn lemma_div_chain_100(y: int)
    requires
        y >= 1,
        y % 100 == 0,
    ensures
        y % 4 == 0,
{
    lemma_fundamental_div_mod(y, 100);
    lemma_fundamental_div_mod_converse(y, 4, 25 * (y / 100), 0);
}

/// The months of a year sum to its length.
proof fn lemma_months_sum(y: int)
    ensures
        days_before_month(y, 12) + days_in_month(y, 12) == 365 + if is_leap_year(y) {
            1int
        } else {
            0int
        },
{
    reveal_with_fuel(days_before_month, 13);
}

/// The day after, clamped nowhere: the caller keeps off the last date.
pub open spec fn next_day_spec(d: Date) -> Date {
    if d.day < days_in_month(d.year as int, d.month as int) {
        Date { year: d.year, month: d.month, day: (d.day + 1) as u32 }
    } else if d.month < 12 {
        Date { year: d.year, month: (d.month + 1) as u32, day: 1 }
    } else {
        Date { year: (d.year + 1) as u32, month: 1, day: 1 }
    }
}

/// The day before, clamped nowhere: the caller keeps off the first date.
pub open spec fn prev_day_spec(d: Date) -> Date {
    if d.day > 1 {
        Date { year: d.year, month: d.month, day: (d.day - 1) as u32 }
    } else if d.month > 1 {
        Date {
            year: d.year,
            month: (d.month - 1) as u32,
            day: days_in_month(d.year as int, (d.month - 1) as int) as u32,
        }
    } else {
        Date { year: (d.year - 1) as u32, month: 12, day: 31 }
    }
}

/// The next calendar day: one day later by day number.
pub fn next_day(d: Date) -> (r: Date)
    requires
        d.wf(),
        d != Date::max_spec(),
    ensures
        r == next_day_spec(d),
        r.wf(),
        day_number(r) == day_number(d) + 1,
{
    let dim = days_in_month_of(d.year, d.month);
    if d.day < dim {
        Date { year: d.year, month: d.month, day: d.day + 1 }
    } else if d.month < 12 {
        Date { year: d.year, month: d.month + 1, day: 1 }
    } else {
        let r = Date { year: d.year + 1, month: 1, day: 1 };
        proof {
            lemma_year_length(d.year as int);
            lemma_months_sum(d.year as int);
        }
        r
    }
}

/// The previous calendar day: one day earlier by day number.
pub fn prev_day(d: Date) -> (r: Date)
    requires
        d.wf(),
        d != Date::min_spec(),
    ensures
        r == prev_day_spec(d),
        r.wf(),
        day_number(r) == day_number(d) - 1,
{
    if d.day > 1 {
        Date { year: d.year, month: d.month, day: d.day - 1 }
    } else if d.month > 1 {
        let dim = days_in_month_of(d.year, d.month - 1);
        Date { year: d.year, month: d.month - 1, day: dim }
    } else {
        let r = Date { year: d.year - 1, month: 12, day: 31 };
        proof {
            lemma_year_length(r.year as int);
            lemma_months_sum(r.year as int);
        }
        r
    }
}

/// The date as `YYYY-MM-DD`, zero-padded.
pub open spec fn date_str(d: Date) -> Seq<char> {
    four_digit_str(d.year as int) + seq!['-'] + two_digit_str(d.month as int) + seq!['-']
        + two_digit_str(d.day as int)
}

/// Renders the date as `YYYY-MM-DD`.
pub fn format_date(d: Date) -> (r: String)
    requires
        d.wf(),
    ensures
        r@ == date_str(d),
{
    let mut r = four_digit_string(d.year as u64);
    proof {
        reveal_strlit("-");
    }
    r.append("-");
    r.append(two_digit_string(d.month as u64).as_str());
    r.append("-");
    r.append(two_digit_string(d.day as u64).as_str());
    proof {
        assert("-"@ =~= seq!['-']);
        assert(r@ =~= date_str(d));
    }
    r
}

/// A decimal digit character.
pub open spec fn is_digit(c: char) -> bool {
    48 <= c as int <= 57
}

/// The value of a digit character.
pub open spec fn digit_val(c: char) -> int {
    c as int - 48
}

/// What a ten-character `YYYY-MM-DD` string means: `Some` exactly for
/// a well-formed date written with zero-padded fields and dashes.
pub open spec fn parse_date_spec(s: Seq<char>) -> Option<Date> {
    if s.len() == 10 && is_digit(s[0]) && is_digit(s[1]) && is_digit(s[2]) && is_digit(s[3]) && s[4]
        == '-' && is_digit(s[5]) && is_digit(s[6]) && s[7] == '-' && is_digit(s[8]) && is_digit(
        s[9],
    ) {
        let d = Date {
            year: (digit_val(s[0]) * 1000 + digit_val(s[1]) * 100 + digit_val(s[2]) * 10
                + digit_val(s[3])) as u32,
            month: (digit_val(s[5]) * 10 + digit_val(s[6])) as u32,
            day: (digit_val(s[8]) * 10 + digit_val(s[9])) as u32,
        };
        if d.wf() {
            Some(d)
        } else {
            None
        }
    } else {
        None
    }
}

/// Reads a `YYYY-MM-DD` string; `None` for anything that is not a
/// well-formed date in that form.
pub fn parse_date(s: &str) -> (r: Option<Date>)
    ensures
        r == parse_date_spec(s@),
        r matches Some(d) ==> d.wf(),
{
    if s.unicode_len() != 10 {
        return None;
    }
    let c0 = s.get_char(0) as u32;
    let c1 = s.get_char(1) as u32;
    let c2 = s.get_char(2) as u32;
    let c3 = s.get_char(3) as u32;
    let d4 = s.get_char(4);
    let c5 = s.get_char(5) as u32;
    let c6 = s.get_char(6) as u32;
    let d7 = s.get_char(7);
    let c8 = s.get_char(8) as u32;
    let c9 = s.get_char(9) as u32;
    if !(48 <= c0 && c0 <= 57) || !(48 <= c1 && c1 <= 57) || !(48 <= c2 && c2 <= 57) || !(48 <= c3
        && c3 <= 57) || d4 != '-' || !(48 <= c5 && c5 <= 57) || !(48 <= c6 && c6 <= 57) || d7 != '-'
        || !(48 <= c8 && c8 <= 57) || !(48 <= c9 && c9 <= 57) {
        return None;
    }
    let year = (c0 - 48) * 1000 + (c1 - 48) * 100 + (c2 - 48) * 10 + (c3 - 48);
    let month = (c5 - 48) * 10 + (c6 - 48);
    let day = (c8 - 48) * 10 + (c9 - 48);
    let d = Date { year, month, day };
    if 1 <= year && 1 <= month && month <= 12 && 1 <= day && day <= days_in_month_of(year, month) {
        Some(d)
    } else {
        None
    }
}

/// Stepping back from any real date but the first yields a real,
/// strictly earlier date.
pub proof fn lemma_prev_day_spec_lt(d: Date)
    requires
        d.wf(),
        d != Date::min_spec(),
    ensures
        prev_day_spec(d).wf(),
        date_lt(prev_day_spec(d), d),
{
}

/// The date order is transitive.
pub proof fn lemma_date_le_trans(a: Date, b: Date, c: Date)
    requires
        (a == b || date_lt(a, b)),
        (b == c || date_lt(b, c)),
    ensures
        a == c || date_lt(a, c),
{
}

/// Two dates cannot each precede the other.
pub proof fn lemma_date_lt_asym(a: Date, b: Date)
    requires
        date_lt(a, b),
    ensures
        !date_lt(b, a),
        a != b,
{
}

proof fn lemma_dbm_monotone(y: int, m1: int, m2: int)
    requires
        1 <= m1 <= m2,
    ensures
        days_before_month(y, m1) <= days_before_month(y, m2),
        m1 < m2 ==> days_before_month(y, m1) + days_in_month(y, m1) <= days_before_month(y, m2),
    decreases m2 - m1,
{
    if m1 < m2 {
        lemma_dbm_monotone(y, m1 + 1, m2);
    }
}

/// Within a year, a date's offset stays below the year's length.
proof fn lemma_year_offset_bound(y: int, m: int, d: int)
    requires
        1 <= m <= 12,
        1 <= d <= days_in_month(y, m),
    ensures
        0 <= days_before_month(y, m) + d - 1,
        days_before_month(y, m) + d - 1 < 365 + if is_leap_year(y) {
            1int
        } else {
            0int
        },
{
    lemma_dbm_monotone(y, 1, m);
    lemma_dbm_monotone(y, m, 12);
    lemma_months_sum(y);
}

proof fn lemma_dby_monotone(y1: int, y2: int)
    requires
        1 <= y1 <= y2,
    ensures
        days_before_year(y1) + 365 * (y2 - y1) <= days_before_year(y2),
    decreases y2 - y1,
{
    if y1 < y2 {
        lemma_year_length(y1);
        lemma_dby_monotone(y1 + 1, y2);
    }
}

/// The day number respects the calendar order: of two real dates, the
/// earlier one has the strictly smaller day number.
pub proof fn lemma_day_number_monotone(a: Date, b: Date)
    requires
        a.wf(),
        b.wf(),
        date_lt(a, b),
    ensures
        day_number(a) < day_number(b),
{
    lemma_year_offset_bound(a.year as int, a.month as int, a.day as int);
    lemma_year_offset_bound(b.year as int, b.month as int, b.day as int);
    if a.year < b.year {
        lemma_year_length(a.year as int);
        lemma_dby_monotone(a.year as int + 1, b.year as int);
    } else if a.month < b.month {
        lemma_dbm_monotone(a.year as int, a.month as int, b.month as int);
    }
}

/// The day number determines the date: two real dates compare exactly
/// as their day numbers do.
pub proof fn lemma_date_order_is_day_number_order(a: Date, b: Date)
    requires
        a.wf(),
        b.wf(),
    ensures
        date_lt(a, b) <==> day_number(a) < day_number(b),
        (a == b) <==> day_number(a) == day_number(b),
{
    if date_lt(a, b) {
        lemma_day_number_monotone(a, b);
    } else if date_lt(b, a) {
        lemma_day_number_monotone(b, a);
    } else {
        assert(a == b);
    }
}

/// Stepping back from any real date but the first lowers the day
/// number by exactly one.
pub proof fn lemma_prev_day_spec_dn(d: Date)
    requires
        d.wf(),
        d != Date::min_spec(),
    ensures
        prev_day_spec(d).wf(),
        day_number(prev_day_spec(d)) == day_number(d) - 1,
{
    lemma_prev_day_spec_lt(d);
    if d.day > 1 {
    } else if d.month > 1 {
    } else {
        lemma_year_length(d.year as int - 1);
        lemma_months_sum(d.year as int - 1);
    }
}

/// A real date's day number is not negative.
pub proof fn lemma_day_number_nonneg(d: Date)
    requires
        d.wf(),
    ensures
        day_number(d) >= 0,
{
    lemma_dby_monotone(1, d.year as int);
    lemma_year_offset_bound(d.year as int, d.month as int, d.day as int);
}

/// Stepping forward from any real date but the last yields a real
/// date with the next day number.
pub proof fn lemma_next_day_spec_dn(d: Date)
    requires
        d.wf(),
        d != Date::max_spec(),
    ensures
        next_day_spec(d).wf(),
        day_number(next_day_spec(d)) == day_number(d) + 1,
{
    if d.day < days_in_month(d.year as int, d.month as int) {
    } else if d.month < 12 {
    } else {
        lemma_year_length(d.year as int);
        lemma_months_sum(d.year as int);
    }
}

} // verus!
