//! Date-range resolution: which dates a report covers.
//!
//! The season's boundary dates and no-game dates are configuration
//! held in a `Calendar` value, not constants of the algorithms; the
//! built-in season calendar carries the sample season's dates.

use vstd::prelude::*;

use crate::calendar::{
    date_before, date_lt, date_str, day_number, day_number_of, format_date, next_day,
    next_day_spec, parse_date, parse_date_spec, prev_day, prev_day_spec, weekday, weekday_spec,
    Date,
};
use crate::text::str_eq;

verus! {

/// A season's calendar configuration: its first game date, the Monday
/// bound below which no week counts, the one Monday whose week shifts
/// back, and the dates without games.
pub struct Calendar {
    pub season_start: Date,
    pub week_floor: Date,
    pub shifted_monday: Date,
    pub break_dates: Vec<Date>,
    pub no_game_dates: Vec<Date>,
}

impl Calendar {
    /// Every configured date is a real date.
    pub open spec fn wf(&self) -> bool {
        self.season_start.wf() && self.week_floor.wf() && self.shifted_monday.wf() && (forall|
            i: int,
        |
            0 <= i < self.break_dates@.len() ==> (#[trigger] self.break_dates@[i]).wf()) && (forall|
            i: int,
        |
            0 <= i < self.no_game_dates@.len() ==> (#[trigger] self.no_game_dates@[i]).wf())
            && self.break_dates@.len() <= 1000 && self.no_game_dates@.len() <= 1000
    }
}

/// The sample season's first game date.
pub open spec fn season_start_date() -> Date {
    Date { year: 2019, month: 3, day: 28 }
}

/// The Monday below which the sample season has no week.
pub open spec fn week_floor_date() -> Date {
    Date { year: 2019, month: 3, day: 25 }
}

/// The one Monday whose week shifts back in the sample season.
pub open spec fn shifted_monday_date() -> Date {
    Date { year: 2019, month: 7, day: 15 }
}

/// The sample season's mid-season break, skipped in date ranges.
pub open spec fn season_break_dates() -> Seq<Date> {
    seq![
        Date { year: 2019, month: 7, day: 8 },
        Date { year: 2019, month: 7, day: 9 },
        Date { year: 2019, month: 7, day: 10 },
    ]
}

/// The sample season's dates without games, skipped in weekly grids.
pub open spec fn season_no_game_dates() -> Seq<Date> {
    seq![
        Date { year: 2019, month: 3, day: 25 },
        Date { year: 2019, month: 3, day: 26 },
        Date { year: 2019, month: 3, day: 27 },
        Date { year: 2019, month: 7, day: 8 },
        Date { year: 2019, month: 7, day: 9 },
        Date { year: 2019, month: 7, day: 10 },
    ]
}

/// The built-in sample season's calendar.
pub fn season_calendar() -> (c: Calendar)
    ensures
        c.season_start == season_start_date(),
        c.week_floor == week_floor_date(),
        c.shifted_monday == shifted_monday_date(),
        c.break_dates@ == season_break_dates(),
        c.no_game_dates@ == season_no_game_dates(),
        c.wf(),
{
    let mut break_dates: Vec<Date> = Vec::new();
    break_dates.push(Date { year: 2019, month: 7, day: 8 });
    break_dates.push(Date { year: 2019, month: 7, day: 9 });
    break_dates.push(Date { year: 2019, month: 7, day: 10 });
    let mut no_game_dates: Vec<Date> = Vec::new();
    no_game_dates.push(Date { year: 2019, month: 3, day: 25 });
    no_game_dates.push(Date { year: 2019, month: 3, day: 26 });
    no_game_dates.push(Date { year: 2019, month: 3, day: 27 });
    no_game_dates.push(Date { year: 2019, month: 7, day: 8 });
    no_game_dates.push(Date { year: 2019, month: 7, day: 9 });
    no_game_dates.push(Date { year: 2019, month: 7, day: 10 });
    let c = Calendar {
        season_start: Date { year: 2019, month: 3, day: 28 },
        week_floor: Date { year: 2019, month: 3, day: 25 },
        shifted_monday: Date { year: 2019, month: 7, day: 15 },
        break_dates,
        no_game_dates,
    };
    proof {
        assert(c.break_dates@ =~= season_break_dates());
        assert(c.no_game_dates@ =~= season_no_game_dates());
    }
    c
}

/// The day before, staying put on the first representable date.
pub open spec fn prev_clamped(d: Date) -> Date {
    if d == Date::min_spec() {
        d
    } else {
        prev_day_spec(d)
    }
}

/// The day after, staying put on the last representable date.
pub open spec fn next_clamped(d: Date) -> Date {
    if d == Date::max_spec() {
        d
    } else {
        next_day_spec(d)
    }
}

/// Steps one day back, clamped at the first representable date.
pub fn prev_clamped_day(d: Date) -> (r: Date)
    requires
        d.wf(),
    ensures
        r == prev_clamped(d),
        r.wf(),
{
    if d.year == 1 && d.month == 1 && d.day == 1 {
        d
    } else {
        prev_day(d)
    }
}

/// Steps one day forward, clamped at the last representable date.
pub fn next_clamped_day(d: Date) -> (r: Date)
    requires
        d.wf(),
    ensures
        r == next_clamped(d),
        r.wf(),
{
    if d.year == 9999 && d.month == 12 && d.day == 31 {
        d
    } else {
        next_day(d)
    }
}

/// Membership in a date list.
pub fn date_in(list: &Vec<Date>, d: Date) -> (r: bool)
    ensures
        r == list@.contains(d),
{
    let mut i: usize = 0;
    while i < list.len()
        invariant
            i <= list@.len(),
            forall|j: int| 0 <= j < i ==> list@[j] != d,
        decreases list@.len() - i,
    {
        if list[i] == d {
            return true;
        }
        i += 1;
    }
    false
}

/// Walking backward from `d`: collect `need` dates, skipping the break
/// dates, one day at a time, within `fuel` steps.
pub open spec fn back_walk(breaks: Seq<Date>, d: Date, need: int, fuel: nat) -> Seq<Seq<char>>
    decreases fuel,
{
    if fuel == 0 || need <= 0 {
        Seq::empty()
    } else if breaks.contains(d) {
        back_walk(breaks, prev_clamped(d), need, (fuel - 1) as nat)
    } else {
        seq![date_str(d)] + back_walk(breaks, prev_clamped(d), need - 1, (fuel - 1) as nat)
    }
}

/// Walking forward from `d` up to (excluding) `last`: collect every
/// date that is not a break date, within `fuel` steps.
pub open spec fn fwd_walk(breaks: Seq<Date>, d: Date, last: Date, fuel: nat) -> Seq<Seq<char>>
    decreases fuel,
{
    if fuel == 0 || !date_lt(d, last) {
        Seq::empty()
    } else if breaks.contains(d) {
        fwd_walk(breaks, next_clamped(d), last, (fuel - 1) as nat)
    } else {
        seq![date_str(d)] + fwd_walk(breaks, next_clamped(d), last, (fuel - 1) as nat)
    }
}

/// The steps from `start` to `last`, by day number.
pub open spec fn steps_between(start: Date, last: Date) -> nat {
    if day_number(last) > day_number(start) {
        (day_number(last) - day_number(start)) as nat
    } else {
        0
    }
}

/// How many dates a range word asks for, beyond the anchor.
pub open spec fn range_days(range: Seq<char>) -> int {
    if range == "1w"@ {
        7
    } else if range == "2w"@ {
        14
    } else if range == "1m"@ {
        30
    } else {
        1
    }
}

/// The dates a report covers: the anchor alone for `1d`; the anchor
/// and the preceding days, skipping break dates, until the range's
/// count is reached, newest first, for `1w`, `2w` and `1m`; every date
/// from the season start through the anchor, skipping break dates,
/// oldest first, for `all`. An unknown range word means the anchor
/// alone.
pub open spec fn date_strs_spec(
    breaks: Seq<Date>,
    season_start: Date,
    anchor: Date,
    range: Seq<char>,
) -> Seq<Seq<char>> {
    if range == "1d"@ {
        seq![date_str(anchor)]
    } else if range == "all"@ {
        fwd_walk(breaks, season_start, anchor, steps_between(season_start, anchor)) + seq![
            date_str(anchor),
        ]
    } else {
        seq![date_str(anchor)] + back_walk(
            breaks,
            prev_clamped(anchor),
            range_days(range) - 1,
            (range_days(range) - 1 + breaks.len()) as nat,
        )
    }
}

/// Resolves a date range against a calendar.
pub fn date_range(cal: &Calendar, anchor: Date, range: &str) -> (r: Vec<String>)
    requires
        cal.wf(),
        anchor.wf(),
    ensures
        r.deep_view() == date_strs_spec(cal.break_dates@, cal.season_start, anchor, range@),
{
    let ghost breaks = cal.break_dates@;
    let mut result: Vec<String> = Vec::new();
    if str_eq(range, "1d") {
        result.push(format_date(anchor));
        proof {
            assert(result.deep_view() =~= date_strs_spec(
                breaks,
                cal.season_start,
                anchor,
                range@,
            ));
        }
        return result;
    }
    if str_eq(range, "all") {
        let mut d = cal.season_start;
        let dn_anchor = day_number_of(anchor);
        let dn_start = day_number_of(cal.season_start);
        let mut fuel: u32 = if dn_anchor > dn_start {
            dn_anchor - dn_start
        } else {
            0
        };
        let ghost fuel0 = fuel as nat;
        while fuel > 0 && date_before(d, anchor)
            invariant
                cal.wf(),
                d.wf(),
                result.deep_view() + fwd_walk(breaks, d, anchor, fuel as nat) == fwd_walk(
                    breaks,
                    cal.season_start,
                    anchor,
                    fuel0,
                ),
                breaks == cal.break_dates@,
            decreases fuel,
        {
            if !date_in(&cal.break_dates, d) {
                result.push(format_date(d));
                proof {
                    assert(result.deep_view().drop_last() + (seq![date_str(d)] + fwd_walk(
                        breaks,
                        next_clamped(d),
                        anchor,
                        (fuel - 1) as nat,
                    )) =~= (result.deep_view().drop_last() + seq![date_str(d)]) + fwd_walk(
                        breaks,
                        next_clamped(d),
                        anchor,
                        (fuel - 1) as nat,
                    ));
                    assert(result.deep_view().drop_last() + seq![date_str(d)]
                        =~= result.deep_view());
                }
            }
            d = next_clamped_day(d);
            fuel -= 1;
        }
        proof {
            assert(fwd_walk(breaks, d, anchor, fuel as nat) =~= Seq::<Seq<char>>::empty());
            assert(result.deep_view() + Seq::<Seq<char>>::empty() =~= result.deep_view());
        }
        result.push(format_date(anchor));
        proof {
            assert(result.deep_view() =~= fwd_walk(
                breaks,
                cal.season_start,
                anchor,
                steps_between(cal.season_start, anchor),
            ) + seq![date_str(anchor)]);
        }
        return result;
    }
    let days: usize = if str_eq(range, "1w") {
        7
    } else if str_eq(range, "2w") {
        14
    } else if str_eq(range, "1m") {
        30
    } else {
        1
    };
    result.push(format_date(anchor));
    let ghost head = result.deep_view();
    let mut need: usize = days - 1;
    let mut fuel: usize = need + cal.break_dates.len();
    let mut d = prev_clamped_day(anchor);
    let ghost fuel0 = fuel as nat;
    proof {
        assert(head + back_walk(breaks, d, need as int, fuel as nat) =~= head + back_walk(
            breaks,
            prev_clamped(anchor),
            range_days(range@) - 1,
            fuel0,
        ));
    }
    while fuel > 0 && need > 0
        invariant
            cal.wf(),
            d.wf(),
            result.deep_view() + back_walk(breaks, d, need as int, fuel as nat) == head
                + back_walk(breaks, prev_clamped(anchor), range_days(range@) - 1, fuel0),
            breaks == cal.break_dates@,
        decreases fuel,
    {
        if !date_in(&cal.break_dates, d) {
            result.push(format_date(d));
            need -= 1;
            proof {
                assert(result.deep_view().drop_last() + (seq![date_str(d)] + back_walk(
                    breaks,
                    prev_clamped(d),
                    need as int,
                    (fuel - 1) as nat,
                )) =~= (result.deep_view().drop_last() + seq![date_str(d)]) + back_walk(
                    breaks,
                    prev_clamped(d),
                    need as int,
                    (fuel - 1) as nat,
                ));
                assert(result.deep_view().drop_last() + seq![date_str(d)] =~= result.deep_view());
            }
        }
        d = prev_clamped_day(d);
        fuel -= 1;
    }
    proof {
        assert(back_walk(breaks, d, need as int, fuel as nat) =~= Seq::<Seq<char>>::empty());
        assert(result.deep_view() + Seq::<Seq<char>>::empty() =~= result.deep_view());
        assert(result.deep_view() =~= date_strs_spec(breaks, cal.season_start, anchor, range@));
    }
    result
}

/// The dates to fetch and merge for a report: the sample season's
/// calendar applied to the anchor date and range word.
pub fn date_strs(date: &str, range: &str) -> (r: Vec<String>)
    requires
        parse_date_spec(date@) is Some,
    ensures
        parse_date_spec(date@) matches Some(anchor) ==> r.deep_view() == date_strs_spec(
            season_break_dates(),
            season_start_date(),
            anchor,
            range@,
        ),
{
    let cal = season_calendar();
    let anchor = match parse_date(date) {
        Some(d) => d,
        None => Date { year: 1, month: 1, day: 1 },
    };
    date_range(&cal, anchor, range)
}

/// `k` days back, one day at a time, stopping at the first
/// representable date.
pub open spec fn go_back(d: Date, k: int) -> Date
    decreases k,
{
    if k <= 0 || d == Date::min_spec() {
        d
    } else {
        go_back(prev_day_spec(d), k - 1)
    }
}

/// The Monday of the week holding `d`.
pub open spec fn monday_of(d: Date) -> Date {
    go_back(d, weekday_spec(d))
}

/// Steps `k` days back, clamped at the first representable date.
fn step_back(d: Date, k: u32) -> (r: Date)
    requires
        d.wf(),
        k <= 7,
    ensures
        r == go_back(d, k as int),
        r.wf(),
{
    let mut cur = d;
    let mut i: u32 = 0;
    while i < k
        invariant
            i <= k,
            cur.wf(),
            go_back(d, k as int) == go_back(cur, (k - i) as int),
        decreases k - i,
    {
        cur = prev_clamped_day(cur);
        i += 1;
    }
    cur
}

/// Walking forward from `d` until `expired`: collect every date that
/// is not a no-game date, within `fuel` steps.
pub open spec fn weekly_walk(no_game: Seq<Date>, d: Date, expired: Date, fuel: nat) -> Seq<
    Seq<char>,
>
    decreases fuel,
{
    if fuel == 0 || d == expired {
        Seq::empty()
    } else if no_game.contains(d) {
        weekly_walk(no_game, next_clamped(d), expired, (fuel - 1) as nat)
    } else {
        seq![date_str(d)] + weekly_walk(no_game, next_clamped(d), expired, (fuel - 1) as nat)
    }
}

/// The first day of the resolved week: the Monday of the anchor's
/// week, a week earlier for the one configured shifted Monday.
pub open spec fn weekly_start(shifted: Date, anchor: Date) -> Date {
    let monday = monday_of(anchor);
    if monday == shifted {
        go_back(monday, 7)
    } else {
        monday
    }
}

/// The week of the report: Monday through the anchor date (at most
/// Sunday), empty when that Monday lies below the week floor, the
/// whole week shifted back for the one configured Monday, and no-game
/// dates left out.
pub open spec fn weekly_date_strs_spec(
    no_game: Seq<Date>,
    week_floor: Date,
    shifted: Date,
    anchor: Date,
) -> Seq<Seq<char>> {
    let monday = monday_of(anchor);
    if date_lt(monday, week_floor) {
        Seq::empty()
    } else {
        let start = weekly_start(shifted, anchor);
        let expired = next_clamped(anchor);
        weekly_walk(no_game, start, expired, steps_between(start, expired))
    }
}

/// Resolves the week containing the anchor against a calendar.
pub fn weekly_date_range(cal: &Calendar, anchor: Date) -> (r: Vec<String>)
    requires
        cal.wf(),
        anchor.wf(),
    ensures
        r.deep_view() == weekly_date_strs_spec(
            cal.no_game_dates@,
            cal.week_floor,
            cal.shifted_monday,
            anchor,
        ),
{
    let ghost no_game = cal.no_game_dates@;
    let wd = weekday(anchor);
    let monday = step_back(anchor, wd);
    let result: Vec<String> = Vec::new();
    if date_before(monday, cal.week_floor) {
        proof {
            assert(result.deep_view() =~= weekly_date_strs_spec(
                no_game,
                cal.week_floor,
                cal.shifted_monday,
                anchor,
            ));
        }
        return result;
    }
    let start = if monday == cal.shifted_monday {
        step_back(monday, 7)
    } else {
        monday
    };
    let expired = next_clamped_day(anchor);
    let dn_start = day_number_of(start);
    let dn_expired = day_number_of(expired);
    let mut fuel: u32 = if dn_expired > dn_start {
        dn_expired - dn_start
    } else {
        0
    };
    let ghost fuel0 = fuel as nat;
    let mut result = result;
    let mut d = start;
    while fuel > 0 && !(d == expired)
        invariant
            cal.wf(),
            d.wf(),
            result.deep_view() + weekly_walk(no_game, d, expired, fuel as nat) == weekly_walk(
                no_game,
                start,
                expired,
                fuel0,
            ),
            no_game == cal.no_game_dates@,
        decreases fuel,
    {
        if !date_in(&cal.no_game_dates, d) {
            result.push(format_date(d));
            proof {
                assert(result.deep_view().drop_last() + (seq![date_str(d)] + weekly_walk(
                    no_game,
                    next_clamped(d),
                    expired,
                    (fuel - 1) as nat,
                )) =~= (result.deep_view().drop_last() + seq![date_str(d)]) + weekly_walk(
                    no_game,
                    next_clamped(d),
                    expired,
                    (fuel - 1) as nat,
                ));
                assert(result.deep_view().drop_last() + seq![date_str(d)] =~= result.deep_view());
            }
        }
        d = next_clamped_day(d);
        fuel -= 1;
    }
    proof {
        assert(weekly_walk(no_game, d, expired, fuel as nat) =~= Seq::<Seq<char>>::empty());
        assert(result.deep_view() + Seq::<Seq<char>>::empty() =~= result.deep_view());
    }
    result
}

/// The Monday-to-anchor week of dates for the weekly grid, under the
/// sample season's calendar.
pub fn weekly_date_strs(date: &str) -> (r: Vec<String>)
    requires
        parse_date_spec(date@) is Some,
    ensures
        parse_date_spec(date@) matches Some(anchor) ==> r.deep_view() == weekly_date_strs_spec(
            season_no_game_dates(),
            week_floor_date(),
            shifted_monday_date(),
            anchor,
        ),
{
    let cal = season_calendar();
    let anchor = match parse_date(date) {
        Some(d) => d,
        None => Date { year: 1, month: 1, day: 1 },
    };
    weekly_date_range(&cal, anchor)
}

/// Dates of the list at or before `d`.
pub open spec fn count_le(s: Seq<Date>, d: Date) -> nat
    decreases s.len(),
{
    if s.len() == 0 {
        0
    } else {
        count_le(s.drop_last(), d) + if s.last() == d || date_lt(s.last(), d) {
            1nat
        } else {
            0nat
        }
    }
}

proof fn lemma_count_le_bound(s: Seq<Date>, d: Date)
    ensures
        count_le(s, d) <= s.len(),
    decreases s.len(),
{
    if s.len() > 0 {
        lemma_count_le_bound(s.drop_last(), d);
    }
}

proof fn lemma_count_le_mono(s: Seq<Date>, a: Date, b: Date)
    requires
        a == b || date_lt(a, b),
    ensures
        count_le(s, a) <= count_le(s, b),
    decreases s.len(),
{
    if s.len() > 0 {
        lemma_count_le_mono(s.drop_last(), a, b);
        if s.last() == a || date_lt(s.last(), a) {
            crate::calendar::lemma_date_le_trans(s.last(), a, b);
        }
    }
}

proof fn lemma_count_le_strict(s: Seq<Date>, a: Date, b: Date, w: int)
    requires
        date_lt(a, b),
        0 <= w < s.len(),
        s[w] == b,
    ensures
        count_le(s, a) < count_le(s, b),
    decreases s.len(),
{
    crate::calendar::lemma_date_lt_asym(a, b);
    if w == s.len() - 1 {
        lemma_count_le_mono(s.drop_last(), a, b);
    } else {
        assert(s.drop_last()[w] == s[w]);
        lemma_count_le_strict(s.drop_last(), a, b, w);
        if s.last() == a || date_lt(s.last(), a) {
            crate::calendar::lemma_date_le_trans(s.last(), a, b);
        }
    }
}

/// Given one spare step per break date at or before the start, the
/// backward walk always gathers its full count of dates.
proof fn lemma_back_walk_len(breaks: Seq<Date>, d: Date, need: int, fuel: nat)
    requires
        need >= 0,
        d.wf(),
        forall|i: int| 0 <= i < breaks.len() ==> (#[trigger] breaks[i]).wf(),
        !breaks.contains(Date::min_spec()),
        fuel >= need + count_le(breaks, d),
    ensures
        back_walk(breaks, d, need, fuel).len() == need,
    decreases fuel,
{
    if fuel == 0 || need <= 0 {
    } else if breaks.contains(d) {
        assert(d != Date::min_spec());
        crate::calendar::lemma_prev_day_spec_lt(d);
        let w = choose|w: int| 0 <= w < breaks.len() && breaks[w] == d;
        lemma_count_le_strict(breaks, prev_clamped(d), d, w);
        lemma_back_walk_len(breaks, prev_clamped(d), need, (fuel - 1) as nat);
    } else {
        if d == Date::min_spec() {
            assert(count_le(breaks, prev_clamped(d)) == count_le(breaks, d));
        } else {
            crate::calendar::lemma_prev_day_spec_lt(d);
            lemma_count_le_mono(breaks, prev_clamped(d), d);
        }
        lemma_back_walk_len(breaks, prev_clamped(d), need - 1, (fuel - 1) as nat);
    }
}

/// A counted range really has its count of dates: for the day-count
/// ranges the resolved list holds the anchor and exactly the asked
/// number of earlier dates, however the break dates fall.
pub proof fn lemma_date_range_count(
    breaks: Seq<Date>,
    season_start: Date,
    anchor: Date,
    range: Seq<char>,
)
    requires
        anchor.wf(),
        forall|i: int| 0 <= i < breaks.len() ==> (#[trigger] breaks[i]).wf(),
        !breaks.contains(Date::min_spec()),
        range != "all"@,
    ensures
        date_strs_spec(breaks, season_start, anchor, range).len() == range_days(range),
{
    reveal_strlit("1d");
    reveal_strlit("1w");
    reveal_strlit("2w");
    reveal_strlit("1m");
    if range == "1d"@ {
        assert(("1d"@)[1] == 'd' && ("1w"@)[1] == 'w' && ("2w"@)[0] == '2' && ("1m"@)[1] == 'm');
        assert(range != "1w"@ && range != "2w"@ && range != "1m"@);
    } else {
        let start = prev_clamped(anchor);
        let need = range_days(range) - 1;
        let fuel = (need + breaks.len()) as nat;
        lemma_count_le_bound(breaks, start);
        if anchor == Date::min_spec() {
        } else {
            crate::calendar::lemma_prev_day_spec_lt(anchor);
        }
        lemma_back_walk_len(breaks, start, need, fuel);
    }
}

proof fn lemma_go_back_dn(d: Date, k: int)
    requires
        d.wf(),
        0 <= k <= day_number(d),
    ensures
        go_back(d, k).wf(),
        day_number(go_back(d, k)) == day_number(d) - k,
    decreases k,
{
    if k <= 0 {
    } else if d == Date::min_spec() {
        assert(day_number(d) == 0);
    } else {
        crate::calendar::lemma_prev_day_spec_dn(d);
        lemma_go_back_dn(prev_day_spec(d), k - 1);
    }
}

proof fn lemma_go_back_wf(d: Date, k: int)
    requires
        d.wf(),
    ensures
        go_back(d, k).wf(),
    decreases k,
{
    if k <= 0 || d == Date::min_spec() {
    } else {
        crate::calendar::lemma_prev_day_spec_lt(d);
        lemma_go_back_wf(prev_day_spec(d), k - 1);
    }
}

/// The weekly resolution starts on a Monday: backing a date up by its
/// weekday lands on weekday zero, exactly that many days earlier.
pub proof fn lemma_monday_of_is_monday(d: Date)
    requires
        d.wf(),
    ensures
        monday_of(d).wf(),
        weekday_spec(monday_of(d)) == 0,
        day_number(monday_of(d)) == day_number(d) - weekday_spec(d),
{
    let dn = day_number(d);
    let k = weekday_spec(d);
    crate::calendar::lemma_day_number_nonneg(d);
    vstd::arithmetic::div_mod::lemma_fundamental_div_mod(dn, 7);
    vstd::arithmetic::div_mod::lemma_mod_pos_bound(dn, 7);
    assert(0 <= k <= dn);
    lemma_go_back_dn(d, k);
    vstd::arithmetic::div_mod::lemma_mod_multiples_basic(dn / 7, 7);
}

/// Every playable date of the span shows up in the forward walk: a
/// real date at or past the start, before the bound and not a break
/// date is collected.
proof fn lemma_fwd_walk_covers(breaks: Seq<Date>, d: Date, last: Date, x: Date)
    requires
        d.wf(),
        last.wf(),
        x.wf(),
        !breaks.contains(x),
        d == x || date_lt(d, x),
        date_lt(x, last),
    ensures
        fwd_walk(breaks, d, last, steps_between(d, last)).contains(date_str(x)),
    decreases steps_between(d, last),
{
    crate::calendar::lemma_date_le_trans(d, x, last);
    crate::calendar::lemma_day_number_monotone(d, last);
    let fuel = steps_between(d, last);
    assert(fuel > 0);
    if d == x {
        let out = fwd_walk(breaks, d, last, fuel);
        assert(out[0] == date_str(x));
    } else {
        assert(date_lt(d, x));
        assert(d != Date::max_spec()) by {
            if d == Date::max_spec() {
                crate::calendar::lemma_day_number_monotone(d, x);
                crate::calendar::lemma_day_number_monotone(x, last);
                crate::calendar::lemma_day_number_nonneg(d);
                assert(date_lt(Date::max_spec(), last));
            }
        }
        crate::calendar::lemma_next_day_spec_dn(d);
        let nxt = next_clamped(d);
        crate::calendar::lemma_day_number_monotone(d, x);
        crate::calendar::lemma_date_order_is_day_number_order(nxt, x);
        assert(steps_between(nxt, last) == fuel - 1);
        lemma_fwd_walk_covers(breaks, nxt, last, x);
        let rest = fwd_walk(breaks, nxt, last, (fuel - 1) as nat);
        let k = choose|k: int| 0 <= k < rest.len() && rest[k] == date_str(x);
        let out = fwd_walk(breaks, d, last, fuel);
        if breaks.contains(d) {
            assert(out[k] == date_str(x));
        } else {
            assert(out[k + 1] == date_str(x));
        }
    }
}

/// The season-long range covers the season: it ends with the anchor,
/// and holds every real non-break date from the season start up to
/// the anchor.
pub proof fn lemma_date_range_all_covers(
    breaks: Seq<Date>,
    season_start: Date,
    anchor: Date,
    x: Date,
)
    requires
        season_start.wf(),
        anchor.wf(),
        x.wf(),
        !breaks.contains(x),
        season_start == x || date_lt(season_start, x),
        date_lt(x, anchor),
    ensures
        date_strs_spec(breaks, season_start, anchor, "all"@).contains(date_str(x)),
        date_strs_spec(breaks, season_start, anchor, "all"@).last() == date_str(anchor),
{
    reveal_strlit("1d");
    reveal_strlit("all");
    assert(("1d"@)[0] == '1' && ("all"@)[0] == 'a');
    assert("all"@ != "1d"@);
    lemma_fwd_walk_covers(breaks, season_start, anchor, x);
    let walk = fwd_walk(breaks, season_start, anchor, steps_between(season_start, anchor));
    let k = choose|k: int| 0 <= k < walk.len() && walk[k] == date_str(x);
    let out = date_strs_spec(breaks, season_start, anchor, "all"@);
    assert(out[k] == date_str(x));
}

/// Every playable date of the week shows up in the weekly walk: a
/// real date at or past the start, strictly before the expiry bound
/// and not a no-game date is collected.
proof fn lemma_weekly_walk_covers(no_game: Seq<Date>, d: Date, expired: Date, x: Date)
    requires
        d.wf(),
        expired.wf(),
        x.wf(),
        !no_game.contains(x),
        d == x || date_lt(d, x),
        date_lt(x, expired),
    ensures
        weekly_walk(no_game, d, expired, steps_between(d, expired)).contains(date_str(x)),
    decreases steps_between(d, expired),
{
    crate::calendar::lemma_date_le_trans(d, x, expired);
    crate::calendar::lemma_day_number_monotone(d, expired);
    crate::calendar::lemma_date_order_is_day_number_order(d, expired);
    let fuel = steps_between(d, expired);
    assert(fuel > 0);
    assert(d != expired);
    if d == x {
        let out = weekly_walk(no_game, d, expired, fuel);
        assert(out[0] == date_str(x));
    } else {
        assert(date_lt(d, x));
        assert(d != Date::max_spec()) by {
            if d == Date::max_spec() {
                crate::calendar::lemma_day_number_monotone(d, x);
                crate::calendar::lemma_day_number_monotone(x, expired);
                assert(date_lt(Date::max_spec(), expired));
            }
        }
        crate::calendar::lemma_next_day_spec_dn(d);
        let nxt = next_clamped(d);
        crate::calendar::lemma_day_number_monotone(d, x);
        crate::calendar::lemma_date_order_is_day_number_order(nxt, x);
        assert(steps_between(nxt, expired) == fuel - 1);
        lemma_weekly_walk_covers(no_game, nxt, expired, x);
        let rest = weekly_walk(no_game, nxt, expired, (fuel - 1) as nat);
        let k = choose|k: int| 0 <= k < rest.len() && rest[k] == date_str(x);
        let out = weekly_walk(no_game, d, expired, fuel);
        if no_game.contains(d) {
            assert(out[k] == date_str(x));
        } else {
            assert(out[k + 1] == date_str(x));
        }
    }
}

/// The resolved week covers its days: when the week is in season, any
/// real date from the week's first day through the anchor that has a
/// game appears in the list.
pub proof fn lemma_weekly_date_strs_covers(
    no_game: Seq<Date>,
    week_floor: Date,
    shifted: Date,
    anchor: Date,
    x: Date,
)
    requires
        anchor.wf(),
        x.wf(),
        anchor != Date::max_spec(),
        !no_game.contains(x),
        !date_lt(monday_of(anchor), week_floor),
        weekly_start(shifted, anchor) == x || date_lt(weekly_start(shifted, anchor), x),
        x == anchor || date_lt(x, anchor),
    ensures
        weekly_date_strs_spec(no_game, week_floor, shifted, anchor).contains(date_str(x)),
{
    let expired = next_clamped(anchor);
    crate::calendar::lemma_next_day_spec_dn(anchor);
    crate::calendar::lemma_date_order_is_day_number_order(x, expired);
    if x != anchor {
        crate::calendar::lemma_day_number_monotone(x, anchor);
    }
    lemma_monday_of_is_monday(anchor);
    lemma_go_back_wf(monday_of(anchor), 7);
    lemma_weekly_walk_covers(no_game, weekly_start(shifted, anchor), expired, x);
}

} // verus!
