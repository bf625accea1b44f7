//! Calendar dates and relative-date resolution.
//!
//! Dates are modelled as proleptic-Gregorian year/month/day triples with
//! years from 1 to 9999, so that the `YYYY-MM-DD` text form is always four
//! digits of year. Day counting, weekday arithmetic and formatting are all
//! verified; the only outside call is the one that asks the clock for the
//! current local date.

use vstd::prelude::*;
use crate::text;

verus! {

/// A calendar date in the proleptic Gregorian calendar.
#[derive(Debug, Clone, Copy, PartialEq, Eq, Structural)]
pub struct Date {
    pub year: u64,
    pub month: u64,
    pub day: u64,
}

/// A day of the week.
#[derive(Debug, Clone, Copy, PartialEq, Eq, Structural)]
pub enum Weekday {
    Mon,
    Tue,
    Wed,
    Thu,
    Fri,
    Sat,
    Sun,
}

/// Days since Monday, the order weekdays cycle in.
pub open spec fn wd_num(w: Weekday) -> int {
    match w {
        Weekday::Mon => 0,
        Weekday::Tue => 1,
        Weekday::Wed => 2,
        Weekday::Thu => 3,
        Weekday::Fri => 4,
        Weekday::Sat => 5,
        Weekday::Sun => 6,
    }
}

pub open spec fn is_leap(y: int) -> bool {
    y % 4 == 0 && (y % 100 != 0 || y % 400 == 0)
}

pub open spec fn year_len(y: int) -> int {
    if is_leap(y) {
        366
    } else {
        365
    }
}

pub open spec fn days_in_month(y: int, m: int) -> int {
    if m == 1 { 31 }
    else if m == 2 { if is_leap(y) { 29 } else { 28 } }
    else if m == 3 { 31 }
    else if m == 4 { 30 }
    else if m == 5 { 31 }
    else if m == 6 { 30 }
    else if m == 7 { 31 }
    else if m == 8 { 31 }
    else if m == 9 { 30 }
    else if m == 10 { 31 }
    else if m == 11 { 30 }
    else { 31 }
}

/// A well-formed date; the year range keeps the text form four digits wide.
pub open spec fn valid_date(d: Date) -> bool {
    &&& 1 <= d.year <= 9999
    &&& 1 <= d.month <= 12
    &&& 1 <= d.day <= days_in_month(d.year as int, d.month as int)
}

/// Days in year `y` before the first of month `m`.
pub open spec fn days_before_month(y: int, m: int) -> int
    decreases m,
{
    if m <= 1 {
        0
    } else {
        days_before_month(y, m - 1) + days_in_month(y, m - 1)
    }
}

/// Days before the first of January of year `y`, counted from 0001-01-01.
pub open spec fn days_before_year(y: int) -> int
    decreases y,
{
    if y <= 1 {
        0
    } else {
        days_before_year(y - 1) + year_len(y - 1)
    }
}

/// Days since 0001-01-01 (which has index 0).
pub open spec fn day_index(d: Date) -> int {
    days_before_year(d.year as int) + days_before_month(d.year as int, d.month as int) + d.day - 1
}

/// 0001-01-01 is a Monday; weekdays cycle with the day index.
pub open spec fn weekday_of(d: Date) -> int {
    day_index(d) % 7
}

/// The day after `d`. Total: past 9999-12-31 it keeps counting into later
/// years, which `valid_date` rules out but the spec tolerates.
pub open spec fn next_day_s(d: Date) -> Date {
    if d.day < days_in_month(d.year as int, d.month as int) {
        Date { year: d.year, month: d.month, day: (d.day + 1) as u64 }
    } else if d.month < 12 {
        Date { year: d.year, month: (d.month + 1) as u64, day: 1 }
    } else {
        Date { year: (d.year + 1) as u64, month: 1, day: 1 }
    }
}

/// The day before `d`; 0001-01-01 is its own predecessor.
pub open spec fn prev_day_s(d: Date) -> Date {
    if d.day > 1 {
        Date { year: d.year, month: d.month, day: (d.day - 1) as u64 }
    } else if d.month > 1 {
        Date {
            year: d.year,
            month: (d.month - 1) as u64,
            day: days_in_month(d.year as int, d.month as int - 1) as u64,
        }
    } else if d.year > 1 {
        Date { year: (d.year - 1) as u64, month: 12, day: 31 }
    } else {
        d
    }
}

/// `d` advanced by `n` days.
pub open spec fn add_days_s(d: Date, n: nat) -> Date
    decreases n,
{
    if n == 0 {
        d
    } else {
        add_days_s(next_day_s(d), (n - 1) as nat)
    }
}

/// A full year of months: the month offsets add up to the year's length.
proof fn lemma_year_total(y: int)
    ensures
        days_before_month(y, 13) == year_len(y),
{
    reveal_with_fuel(days_before_month, 13);
}

/// Stepping one day forward advances the day index by exactly one.
proof fn lemma_next_day_index(d: Date)
    requires
        1 <= d.month <= 12,
        1 <= d.day <= days_in_month(d.year as int, d.month as int),
        1 <= d.year < u64::MAX,
    ensures
        day_index(next_day_s(d)) == day_index(d) + 1,
{
    if d.day < days_in_month(d.year as int, d.month as int) {
    } else if d.month < 12 {
        assert(days_before_month(d.year as int, d.month as int + 1)
            == days_before_month(d.year as int, d.month as int)
                + days_in_month(d.year as int, d.month as int));
    } else {
        lemma_year_total(d.year as int);
        assert(next_day_s(d).year == d.year + 1);
        assert(days_before_year(d.year as int + 1)
            == days_before_year(d.year as int) + year_len(d.year as int));
        assert(days_before_month(d.year as int + 1, 1) == 0);
        assert(days_before_month(d.year as int, 13)
            == days_before_month(d.year as int, 12) + days_in_month(d.year as int, 12));
    }
}

/// `next_day_s` preserves well-formedness, except for the year cap.
proof fn lemma_next_day_shape(d: Date)
    requires
        1 <= d.month <= 12,
        1 <= d.day <= days_in_month(d.year as int, d.month as int),
        1 <= d.year < u64::MAX,
    ensures
        1 <= next_day_s(d).month <= 12,
        1 <= next_day_s(d).day <= days_in_month(next_day_s(d).year as int, next_day_s(d).month as int),
        next_day_s(d).year == d.year || next_day_s(d).year == d.year + 1,
        next_day_s(d).year == d.year + 1 ==> d.month == 12
            && d.day == days_in_month(d.year as int, 12),
{
}

/// Adding days shifts the day index by that count.
proof fn lemma_add_days_index(d: Date, n: nat)
    requires
        1 <= d.month <= 12,
        1 <= d.day <= days_in_month(d.year as int, d.month as int),
        d.year >= 1,
        d.year + n < u64::MAX,
    ensures
        day_index(add_days_s(d, n)) == day_index(d) + n,
        1 <= add_days_s(d, n).month <= 12,
        1 <= add_days_s(d, n).day
            <= days_in_month(add_days_s(d, n).year as int, add_days_s(d, n).month as int),
        add_days_s(d, n).year >= d.year,
    decreases n,
{
    if n > 0 {
        lemma_next_day_index(d);
        lemma_next_day_shape(d);
        lemma_add_days_index(next_day_s(d), (n - 1) as nat);
    }
}

pub fn leap_year(y: u64) -> (b: bool)
    ensures
        b == is_leap(y as int),
{
    y % 4 == 0 && (y % 100 != 0 || y % 400 == 0)
}

pub fn month_len(y: u64, m: u64) -> (r: u64)
    requires
        1 <= m <= 12,
    ensures
        r == days_in_month(y as int, m as int),
{
    if m == 1 { 31 }
    else if m == 2 { if leap_year(y) { 29 } else { 28 } }
    else if m == 3 { 31 }
    else if m == 4 { 30 }
    else if m == 5 { 31 }
    else if m == 6 { 30 }
    else if m == 7 { 31 }
    else if m == 8 { 31 }
    else if m == 9 { 30 }
    else if m == 10 { 31 }
    else if m == 11 { 30 }
    else { 31 }
}

/// The bound used to show the day-index sums stay small.
proof fn lemma_days_before_year_bound(y: int)
    requires
        y >= 0,
    ensures
        0 <= days_before_year(y) <= 366 * y,
    decreases y,
{
    if y > 1 {
        lemma_days_before_year_bound(y - 1);
    }
}

proof fn lemma_days_before_month_bound(y: int, m: int)
    requires
        m >= 0,
    ensures
        0 <= days_before_month(y, m) <= 31 * m,
    decreases m,
{
    if m > 1 {
        lemma_days_before_month_bound(y, m - 1);
    }
}

/// Days since 0001-01-01.
pub fn day_number(d: &Date) -> (r: u64)
    requires
        valid_date(*d),
    ensures
        r == day_index(*d),
{
    let mut acc: u64 = 0;
    let mut y: u64 = 1;
    proof {
        lemma_days_before_year_bound(d.year as int);
    }
    while y < d.year
        invariant
            1 <= y <= d.year <= 9999,
            acc == days_before_year(y as int),
            valid_date(*d),
        decreases d.year - y,
    {
        proof {
            lemma_days_before_year_bound(y as int);
        }
        if leap_year(y) {
            acc += 366;
        } else {
            acc += 365;
        }
        y += 1;
    }
    let mut m: u64 = 1;
    while m < d.month
        invariant
            1 <= m <= d.month,
            valid_date(*d),
            acc == days_before_year(d.year as int) + days_before_month(d.year as int, m as int),
        decreases d.month - m,
    {
        proof {
            lemma_days_before_year_bound(d.year as int);
            lemma_days_before_month_bound(d.year as int, m as int);
        }
        acc += month_len(d.year, m);
        m += 1;
    }
    proof {
        lemma_days_before_year_bound(d.year as int);
        lemma_days_before_month_bound(d.year as int, d.month as int);
    }
    acc + d.day - 1
}

pub fn weekday_number(d: &Date) -> (r: u64)
    requires
        valid_date(*d),
    ensures
        r == weekday_of(*d),
{
    day_number(d) % 7
}

pub fn weekday(d: &Date) -> (w: Weekday)
    requires
        valid_date(*d),
    ensures
        wd_num(w) == weekday_of(*d),
{
    let n = weekday_number(d);
    if n == 0 { Weekday::Mon }
    else if n == 1 { Weekday::Tue }
    else if n == 2 { Weekday::Wed }
    else if n == 3 { Weekday::Thu }
    else if n == 4 { Weekday::Fri }
    else if n == 5 { Weekday::Sat }
    else { Weekday::Sun }
}

/// The day after `d`, while it stays within the supported years.
pub fn next_day(d: &Date) -> (r: Option<Date>)
    requires
        valid_date(*d),
    ensures
        r matches Some(e) ==> e == next_day_s(*d) && valid_date(e),
        r is None <==> *d == (Date { year: 9999, month: 12, day: 31 }),
{
    if d.year == 9999 && d.month == 12 && d.day == 31 {
        return None;
    }
    let dim = month_len(d.year, d.month);
    if d.day < dim {
        Some(Date { year: d.year, month: d.month, day: d.day + 1 })
    } else if d.month < 12 {
        Some(Date { year: d.year, month: d.month + 1, day: 1 })
    } else {
        Some(Date { year: d.year + 1, month: 1, day: 1 })
    }
}

/// The day before `d`; 0001-01-01 stays put.
pub fn prev_day(d: &Date) -> (r: Date)
    requires
        valid_date(*d),
    ensures
        r == prev_day_s(*d),
        valid_date(r),
{
    if d.day > 1 {
        Date { year: d.year, month: d.month, day: d.day - 1 }
    } else if d.month > 1 {
        Date { year: d.year, month: d.month - 1, day: month_len(d.year, d.month - 1) }
    } else if d.year > 1 {
        Date { year: d.year - 1, month: 12, day: 31 }
    } else {
        *d
    }
}

/// Advancing by fewer than `n` days never reaches the last supported date,
/// so advancing by `n` stays in range.
pub open spec fn can_add(d: Date, n: nat) -> bool {
    forall|k: nat| k < n ==> add_days_s(d, k) != (Date { year: 9999, month: 12, day: 31 })
}

/// `d` advanced by `n` days, or `None` if that leaves the supported years.
pub fn add_days(d: &Date, n: u64) -> (r: Option<Date>)
    requires
        valid_date(*d),
    ensures
        r matches Some(e) ==> e == add_days_s(*d, n as nat) && valid_date(e),
        r is Some <==> can_add(*d, n as nat),
{
    let mut cur: Date = *d;
    let mut i: u64 = 0;
    while i < n
        invariant
            i <= n,
            valid_date(cur),
            cur == add_days_s(*d, i as nat),
            valid_date(*d),
            forall|k: nat| k < i ==> add_days_s(*d, k)
                != (Date { year: 9999, month: 12, day: 31 }),
        decreases n - i,
    {
        proof {
            lemma_add_days_unroll(*d, i as nat);
        }
        match next_day(&cur) {
            Some(e) => {
                cur = e;
            }
            None => {
                return None;
            }
        }
        i += 1;
    }
    Some(cur)
}

/// Within a week of a date before year 9999, the counting never reaches
/// the last supported date: the first days of 9999 are all in January.
pub proof fn lemma_small_add_shape(d: Date, j: nat)
    requires
        valid_date(d),
        d.year <= 9998,
        j <= 7,
    ensures
        ({
            let e = add_days_s(d, j);
            &&& 1 <= e.year
            &&& 1 <= e.month <= 12
            &&& 1 <= e.day <= days_in_month(e.year as int, e.month as int)
            &&& e.year <= 9998 || (e.year == 9999 && e.month == 1 && e.day <= j)
        }),
    decreases j,
{
    if j > 0 {
        lemma_small_add_shape(d, (j - 1) as nat);
        lemma_add_days_unroll(d, (j - 1) as nat);
        let e = add_days_s(d, (j - 1) as nat);
        lemma_next_day_shape(e);
    }
}

pub proof fn lemma_can_add_small(d: Date, n: nat)
    requires
        valid_date(d),
        d.year <= 9998,
        n <= 7,
    ensures
        can_add(d, n),
{
    assert forall|k: nat| k < n implies add_days_s(d, k)
        != (Date { year: 9999, month: 12, day: 31 }) by {
        lemma_small_add_shape(d, k);
    }
}

/// `add_days_s` unrolls from the front as well as from the back.
proof fn lemma_add_days_unroll(d: Date, i: nat)
    ensures
        add_days_s(d, (i + 1) as nat) == next_day_s(add_days_s(d, i)),
    decreases i,
{
    if i > 0 {
        lemma_add_days_unroll(next_day_s(d), (i - 1) as nat);
        assert(add_days_s(d, (i + 1) as nat) == add_days_s(next_day_s(d), i));
        assert(add_days_s(d, i) == add_days_s(next_day_s(d), (i - 1) as nat));
    } else {
        assert(add_days_s(d, 1nat) == add_days_s(next_day_s(d), 0nat));
        assert(add_days_s(next_day_s(d), 0nat) == next_day_s(d));
        assert(add_days_s(d, 0nat) == d);
    }
}

/// The `YYYY-MM-DD` text form of a date.
pub open spec fn date_str(d: Date) -> Seq<char> {
    text::pad4(d.year as int) + seq!['-'] + text::pad2(d.month as int) + seq!['-']
        + text::pad2(d.day as int)
}

/// Formats a date as `YYYY-MM-DD`.
pub fn format_date(d: &Date) -> (r: String)
    requires
        valid_date(*d),
    ensures
        r@ == date_str(*d),
{
    let mut v = text::u64_to_pad4(d.year);
    v.push('-');
    let m2 = text::u64_to_pad2(d.month);
    text::push_all(&mut v, &m2);
    v.push('-');
    let d2 = text::u64_to_pad2(d.day);
    text::push_all(&mut v, &d2);
    proof {
        assert(v@ =~= date_str(*d));
    }
    text::chars_to_string(&v)
}

/// The weekday named by `s`, full or abbreviated, in any letter case.
pub open spec fn parse_weekday_s(s0: Seq<char>) -> Option<Weekday> {
    let s = text::lower(s0);
    if s == "monday"@ || s == "mon"@ { Some(Weekday::Mon) }
    else if s == "tuesday"@ || s == "tue"@ || s == "tues"@ { Some(Weekday::Tue) }
    else if s == "wednesday"@ || s == "wed"@ { Some(Weekday::Wed) }
    else if s == "thursday"@ || s == "thu"@ || s == "thurs"@ { Some(Weekday::Thu) }
    else if s == "friday"@ || s == "fri"@ { Some(Weekday::Fri) }
    else if s == "saturday"@ || s == "sat"@ { Some(Weekday::Sat) }
    else if s == "sunday"@ || s == "sun"@ { Some(Weekday::Sun) }
    else { None }
}

fn parse_weekday_vec(v: &Vec<char>) -> (r: Option<Weekday>)
    ensures
        r == parse_weekday_s(v@),
{
    let l = text::to_lower_vec(v);
    if text::vec_eq(&l, &text::str_to_chars("monday")) || text::vec_eq(&l, &text::str_to_chars("mon")) {
        Some(Weekday::Mon)
    } else if text::vec_eq(&l, &text::str_to_chars("tuesday")) || text::vec_eq(&l, &text::str_to_chars("tue"))
        || text::vec_eq(&l, &text::str_to_chars("tues")) {
        Some(Weekday::Tue)
    } else if text::vec_eq(&l, &text::str_to_chars("wednesday")) || text::vec_eq(&l, &text::str_to_chars("wed")) {
        Some(Weekday::Wed)
    } else if text::vec_eq(&l, &text::str_to_chars("thursday")) || text::vec_eq(&l, &text::str_to_chars("thu"))
        || text::vec_eq(&l, &text::str_to_chars("thurs")) {
        Some(Weekday::Thu)
    } else if text::vec_eq(&l, &text::str_to_chars("friday")) || text::vec_eq(&l, &text::str_to_chars("fri")) {
        Some(Weekday::Fri)
    } else if text::vec_eq(&l, &text::str_to_chars("saturday")) || text::vec_eq(&l, &text::str_to_chars("sat")) {
        Some(Weekday::Sat)
    } else if text::vec_eq(&l, &text::str_to_chars("sunday")) || text::vec_eq(&l, &text::str_to_chars("sun")) {
        Some(Weekday::Sun)
    } else {
        None
    }
}

/// The weekday named by `s`, full or abbreviated, in any letter case.
pub fn parse_weekday(s: &str) -> (r: Option<Weekday>)
    ensures
        r == parse_weekday_s(s@),
{
    parse_weekday_vec(&text::str_to_chars(s))
}

/// How many days ahead the next occurrence of a weekday lies: one to seven,
/// never zero, so a date's own weekday means a full week ahead.
pub open spec fn days_ahead(cur: int, target: int) -> int {
    if target > cur {
        target - cur
    } else {
        target - cur + 7
    }
}

/// The next occurrence of weekday `w` strictly after `d`.
pub open spec fn next_weekday_s(d: Date, w: Weekday) -> Date {
    add_days_s(d, days_ahead(weekday_of(d), wd_num(w)) as nat)
}

fn wd_number(w: Weekday) -> (n: u64)
    ensures
        n == wd_num(w),
{
    match w {
        Weekday::Mon => 0,
        Weekday::Tue => 1,
        Weekday::Wed => 2,
        Weekday::Thu => 3,
        Weekday::Fri => 4,
        Weekday::Sat => 5,
        Weekday::Sun => 6,
    }
}

/// Find the next occurrence of a weekday, one to seven days ahead.
pub fn next_weekday(from: &Date, target: Weekday) -> (r: Date)
    requires
        valid_date(*from),
        from.year <= 9998,
    ensures
        r == next_weekday_s(*from, target),
        valid_date(r),
        weekday_of(r) == wd_num(target),
        day_index(*from) < day_index(r) <= day_index(*from) + 7,
{
    let cur = weekday_number(from);
    let t = wd_number(target);
    let k: u64 = if t > cur {
        t - cur
    } else {
        t + 7 - cur
    };
    proof {
        lemma_can_add_small(*from, k as nat);
    }
    let r = add_days(from, k);
    match r {
        Some(e) => {
            proof {
                lemma_add_days_index(*from, k as nat);
                assert(weekday_of(e) == wd_num(target)) by {
                    let di = day_index(*from);
                    vstd::arithmetic::div_mod::lemma_fundamental_div_mod(di, 7);
                    let q = di / 7;
                    assert(day_index(e) == di + k);
                    assert(di == 7 * q + cur);
                    if t > cur {
                        assert(day_index(e) == 7 * q + t);
                        vstd::arithmetic::div_mod::lemma_mod_multiples_vanish(q, t as int, 7);
                        vstd::arithmetic::div_mod::lemma_small_mod(t as nat, 7);
                    } else {
                        assert(day_index(e) == 7 * (q + 1) + t);
                        vstd::arithmetic::div_mod::lemma_mod_multiples_vanish(q + 1, t as int, 7);
                        vstd::arithmetic::div_mod::lemma_small_mod(t as nat, 7);
                    }
                };
            }
            e
        }
        None => {
            proof {
                assert(false);
            }
            *from
        }
    }
}

/// Asks the clock for the current local calendar date, as year, month and
/// day numbers.
///
/// Relies on chrono's `Local::now().date_naive()`; the result depends on
/// the clock and the machine's time zone, so nothing is promised of it.
#[verifier::external_body]
fn now_ymd() -> (r: (i64, u64, u64)) {
    let d = chrono::Local::now().date_naive();
    (
        chrono::Datelike::year(&d) as i64,
        chrono::Datelike::month(&d) as u64,
        chrono::Datelike::day(&d) as u64,
    )
}

/// The clock's current date. Nonsense clock readings, and years outside
/// 1..=9998, fall back to 2000-01-01 so that every caller gets a date with
/// room for a week of arithmetic.
pub fn today() -> (d: Date)
    ensures
        valid_date(d),
        d.year <= 9998,
{
    let (y, m, dd) = now_ymd();
    if 1 <= y && y <= 9998 {
        let yy = y as u64;
        if 1 <= m && m <= 12 {
            let dim = month_len(yy, m);
            if 1 <= dd && dd <= dim {
                return Date { year: yy, month: m, day: dd };
            }
        }
    }
    Date { year: 2000, month: 1, day: 1 }
}

/// What a relative date token resolves to, against the date `t`:
/// `today`, `tomorrow` and `yesterday` move by whole days, a weekday name
/// (bare or after `next`) moves to its next occurrence, and anything else
/// passes through unchanged. Matching ignores letter case and outer spaces.
pub open spec fn resolve_spec(s: Seq<char>, t: Date) -> Seq<char> {
    let l = text::trim_spec(text::lower(s));
    if l == "today"@ {
        date_str(t)
    } else if l == "tomorrow"@ {
        date_str(next_day_s(t))
    } else if l == "yesterday"@ {
        date_str(prev_day_s(t))
    } else if l.len() >= 5 && l.subrange(0, 5) == "next "@
        && parse_weekday_s(text::trim_spec(l.skip(5))) is Some {
        date_str(next_weekday_s(t, parse_weekday_s(text::trim_spec(l.skip(5)))->Some_0))
    } else if parse_weekday_s(l) is Some {
        date_str(next_weekday_s(t, parse_weekday_s(l)->Some_0))
    } else {
        s
    }
}

/// Resolves a relative date token against an explicit current date.
pub fn resolve_relative_date_on(date_text: &str, t: &Date) -> (r: String)
    requires
        valid_date(*t),
        t.year <= 9998,
    ensures
        r@ == resolve_spec(date_text@, *t),
{
    let raw = text::str_to_chars(date_text);
    let lowered = text::to_lower_vec(&raw);
    let l = text::trim_vec(&lowered);
    if text::vec_eq(&l, &text::str_to_chars("today")) {
        return format_date(t);
    }
    if text::vec_eq(&l, &text::str_to_chars("tomorrow")) {
        match next_day(t) {
            Some(e) => {
                return format_date(&e);
            }
            None => {
                proof {
                    assert(false);
                }
                return format_date(t);
            }
        }
    }
    if text::vec_eq(&l, &text::str_to_chars("yesterday")) {
        let e = prev_day(t);
        return format_date(&e);
    }
    let next_pat = text::str_to_chars("next ");
    proof {
        reveal_strlit("next ");
    }
    if text::starts_with_vec(&l, &next_pat) {
        let rest = text::subvec(&l, 5, l.len());
        proof {
            assert(l@.skip(5) =~= l@.subrange(5, l@.len() as int));
        }
        let rest_trimmed = text::trim_vec(&rest);
        match parse_weekday_vec(&rest_trimmed) {
            Some(w) => {
                let e = next_weekday(t, w);
                return format_date(&e);
            }
            None => {}
        }
    }
    match parse_weekday_vec(&l) {
        Some(w) => {
            let e = next_weekday(t, w);
            format_date(&e)
        }
        None => {
            text::chars_to_string(&raw)
        }
    }
}

/// Resolves a relative date token against the clock's current date.
pub fn resolve_relative_date(date_text: &str) -> (r: String)
    ensures
        exists|t: Date| valid_date(t) && t.year <= 9998 && r@ == resolve_spec(date_text@, t),
{
    let t = today();
    resolve_relative_date_on(date_text, &t)
}

/// Today's date formatted as `YYYY-MM-DD`.
pub fn today_date() -> (r: String)
    ensures
        exists|t: Date| valid_date(t) && t.year <= 9998 && r@ == date_str(t),
{
    let t = today();
    format_date(&t)
}

/// The count in a `next N days` phrase, if `l` has that shape and the count
/// fits in a `u64`.
pub open spec fn next_n_days_count(l: Seq<char>) -> Option<int> {
    if l.len() >= 10 && l.subrange(0, 5) == "next "@
        && l.subrange(l.len() - 5, l.len() as int) == " days"@ {
        let mid = text::trim_spec(l.subrange(5, l.len() - 5));
        if text::is_numeral(mid) && text::dec_val(text::numeral_body(mid)) <= u64::MAX {
            Some(text::dec_val(text::numeral_body(mid)))
        } else {
            None
        }
    } else {
        None
    }
}

/// A range of `n` days starting today ends `n - 1` days ahead; a count of
/// zero also ends today.
pub open spec fn day_count_offset(n: int) -> nat {
    (if n == 0 { 0int } else { n - 1 }) as nat
}

/// Days from `t` to the coming Saturday: zero on a Saturday itself.
pub open spec fn days_to_saturday(t: Date) -> int {
    if weekday_of(t) <= 5 {
        5 - weekday_of(t)
    } else {
        6
    }
}

/// What a date-range token resolves to: a start date and an optional end.
/// `next week` and a bare `forecast` mean seven days from `t`; `next N days`
/// means `N` days from `t`; `this weekend` means the coming Saturday and
/// Sunday; anything else resolves as a single date with no end. A day count
/// whose end would leave the supported years falls through to the single
/// date reading.
pub open spec fn range_spec(s: Seq<char>, t: Date) -> (Seq<char>, Option<Seq<char>>) {
    let l = text::trim_spec(text::lower(s));
    if l == "next week"@ {
        (date_str(t), Some(date_str(add_days_s(t, 6))))
    } else if next_n_days_count(l) is Some
        && can_add(t, day_count_offset(next_n_days_count(l)->Some_0)) {
        (date_str(t), Some(date_str(add_days_s(t, day_count_offset(next_n_days_count(l)->Some_0)))))
    } else if l == "this weekend"@ {
        (
            date_str(add_days_s(t, days_to_saturday(t) as nat)),
            Some(date_str(next_day_s(add_days_s(t, days_to_saturday(t) as nat)))),
        )
    } else if l == "forecast"@ {
        (date_str(t), Some(date_str(add_days_s(t, 6))))
    } else {
        (resolve_spec(s, t), None)
    }
}

fn next_n_days_check(l: &Vec<char>) -> (r: Option<u64>)
    ensures
        match r {
            Some(n) => next_n_days_count(l@) == Some(n as int),
            None => next_n_days_count(l@) is None,
        },
{
    proof {
        reveal_strlit("next ");
        reveal_strlit(" days");
    }
    if l.len() < 10 {
        return None;
    }
    let prefix = text::str_to_chars("next ");
    let suffix = text::str_to_chars(" days");
    if !text::starts_with_vec(l, &prefix) {
        return None;
    }
    if !text::eq_at(l, l.len() - 5, &suffix) {
        proof {
            assert(l@.subrange(l@.len() - 5, l@.len() as int)
                =~= l@.subrange(l@.len() - 5, l@.len() - 5 + 5));
        }
        return None;
    }
    proof {
        assert(l@.subrange(l@.len() - 5, l@.len() as int)
            =~= l@.subrange(l@.len() - 5, l@.len() - 5 + 5));
    }
    let mid = text::subvec(l, 5, l.len() - 5);
    let tm = text::trim_vec(&mid);
    text::parse_u64(&tm)
}

/// Resolves a date-range token against an explicit current date.
pub fn resolve_date_range_on(date_text: &str, t: &Date) -> (r: (String, Option<String>))
    requires
        valid_date(*t),
        t.year <= 9998,
    ensures
        r.0@ == range_spec(date_text@, *t).0,
        match (r.1, range_spec(date_text@, *t).1) {
            (Some(a), Some(b)) => a@ == b,
            (None, None) => true,
            _ => false,
        },
{
    let raw = text::str_to_chars(date_text);
    let lowered = text::to_lower_vec(&raw);
    let l = text::trim_vec(&lowered);
    if text::vec_eq(&l, &text::str_to_chars("next week")) {
        proof {
            lemma_can_add_small(*t, 6);
        }
        match add_days(t, 6) {
            Some(e) => {
                return (format_date(t), Some(format_date(&e)));
            }
            None => {
                proof {
                    assert(false);
                }
                return (format_date(t), None);
            }
        }
    }
    match next_n_days_check(&l) {
        Some(n) => {
            let off: u64 = if n == 0 { 0 } else { n - 1 };
            match add_days(t, off) {
                Some(e) => {
                    return (format_date(t), Some(format_date(&e)));
                }
                None => {}
            }
        }
        None => {}
    }
    if text::vec_eq(&l, &text::str_to_chars("this weekend")) {
        let wd = weekday_number(t);
        let k: u64 = if wd <= 5 { 5 - wd } else { 6 };
        proof {
            lemma_can_add_small(*t, k as nat);
        }
        match add_days(t, k) {
            Some(sat) => {
                proof {
                    lemma_small_add_shape(*t, k as nat);
                }
                match next_day(&sat) {
                    Some(sun) => {
                        return (format_date(&sat), Some(format_date(&sun)));
                    }
                    None => {
                        proof {
                            assert(false);
                        }
                        return (format_date(&sat), None);
                    }
                }
            }
            None => {
                proof {
                    assert(false);
                }
                return (format_date(t), None);
            }
        }
    }
    if text::vec_eq(&l, &text::str_to_chars("forecast")) {
        proof {
            lemma_can_add_small(*t, 6);
        }
        match add_days(t, 6) {
            Some(e) => {
                return (format_date(t), Some(format_date(&e)));
            }
            None => {
                proof {
                    assert(false);
                }
                return (format_date(t), None);
            }
        }
    }
    (resolve_relative_date_on(date_text, t), None)
}

/// Resolves a date-range token against the clock's current date.
pub fn resolve_date_range(date_text: &str) -> (r: (String, Option<String>))
    ensures
        exists|t: Date|
            valid_date(t) && t.year <= 9998 && r.0@ == range_spec(date_text@, t).0 && (match (
                r.1,
                range_spec(date_text@, t).1,
            ) {
                (Some(a), Some(b)) => a@ == b,
                (None, None) => true,
                _ => false,
            }),
{
    let t = today();
    resolve_date_range_on(date_text, &t)
}

/// The weekday cycles with day arithmetic: `n` days ahead, the weekday
/// advances by `n` modulo seven.
pub proof fn lemma_weekday_after_add(d: Date, n: nat)
    requires
        valid_date(d),
        d.year + n < u64::MAX,
    ensures
        day_index(add_days_s(d, n)) == day_index(d) + n,
        weekday_of(add_days_s(d, n)) == (weekday_of(d) + n) % 7,
{
    lemma_add_days_index(d, n);
    let di = day_index(d);
    vstd::arithmetic::div_mod::lemma_add_mod_noop(di, n as int, 7);
    vstd::arithmetic::div_mod::lemma_mod_twice(di, 7);
    vstd::arithmetic::div_mod::lemma_mod_twice(n as int, 7);
    vstd::arithmetic::div_mod::lemma_add_mod_noop(di % 7, n as int, 7);
    assert((di + n) % 7 == ((di % 7) + (n as int) % 7) % 7);
    assert(((di % 7) + (n as int) % 7) % 7 == ((di % 7) % 7 + (n as int) % 7) % 7);
    assert(((di % 7) + n) % 7 == ((di % 7) % 7 + (n as int) % 7) % 7);
}

/// The next occurrence of a weekday lands on that weekday, one to seven
/// days ahead.
pub proof fn lemma_next_weekday_hits(d: Date, w: Weekday)
    requires
        valid_date(d),
        d.year <= 9998,
    ensures
        weekday_of(next_weekday_s(d, w)) == wd_num(w),
        day_index(d) < day_index(next_weekday_s(d, w)) <= day_index(d) + 7,
        valid_date(next_weekday_s(d, w)),
{
    let cur = weekday_of(d);
    let t = wd_num(w);
    vstd::arithmetic::div_mod::lemma_mod_division_less_than_divisor(day_index(d), 7);
    lemma_day_index_nonneg(d);
    let k = days_ahead(cur, t);
    lemma_weekday_after_add(d, k as nat);
    lemma_can_add_small(d, k as nat);
    lemma_small_add_shape(d, k as nat);
    assert((cur + k) % 7 == t) by {
        if t > cur {
            vstd::arithmetic::div_mod::lemma_small_mod(t as nat, 7);
        } else {
            vstd::arithmetic::div_mod::lemma_mod_add_multiples_vanish(t, 7);
            vstd::arithmetic::div_mod::lemma_small_mod(t as nat, 7);
        }
    };
    assert(valid_date(add_days_s(d, k as nat))) by {
        let e = add_days_s(d, k as nat);
        assert(1 <= e.year);
    };
}

proof fn lemma_day_index_nonneg(d: Date)
    requires
        valid_date(d),
    ensures
        day_index(d) >= 0,
{
    lemma_days_before_year_bound(d.year as int);
    lemma_days_before_month_bound(d.year as int, d.month as int);
}

/// All the single-date tokens the resolver recognises.
pub open spec fn recognized_token(l: Seq<char>) -> bool {
    ||| l == "today"@
    ||| l == "tomorrow"@
    ||| l == "yesterday"@
    ||| (l.len() >= 5 && l.subrange(0, 5) == "next "@
        && parse_weekday_s(text::trim_spec(l.skip(5))) is Some)
    ||| parse_weekday_s(l) is Some
}

/// Resolving `today` gives the current date's text, exactly.
pub proof fn law_resolve_today(t: Date)
    requires
        valid_date(t),
        t.year <= 9998,
    ensures
        resolve_spec("today"@, t) == date_str(t),
{
    reveal_strlit("today");
    lemma_token_fixed("today"@);
    assert(text::trim_spec(text::lower("today"@)) =~= "today"@);
}

/// Resolving `tomorrow` gives the day after, whose day index is one more.
pub proof fn law_resolve_tomorrow(t: Date)
    requires
        valid_date(t),
        t.year <= 9998,
    ensures
        resolve_spec("tomorrow"@, t) == date_str(next_day_s(t)),
        day_index(next_day_s(t)) == day_index(t) + 1,
{
    reveal_strlit("tomorrow");
    reveal_strlit("today");
    lemma_token_fixed("tomorrow"@);
    assert(text::trim_spec(text::lower("tomorrow"@)) =~= "tomorrow"@);
    lemma_next_day_index(t);
}

/// Resolving `next monday` lands on a Monday, one to seven days ahead.
pub proof fn law_resolve_next_monday(t: Date)
    requires
        valid_date(t),
        t.year <= 9998,
    ensures
        resolve_spec("next monday"@, t) == date_str(next_weekday_s(t, Weekday::Mon)),
        weekday_of(next_weekday_s(t, Weekday::Mon)) == wd_num(Weekday::Mon),
        day_index(t) < day_index(next_weekday_s(t, Weekday::Mon)) <= day_index(t) + 7,
{
    reveal_strlit("next monday");
    reveal_strlit("today");
    reveal_strlit("tomorrow");
    reveal_strlit("yesterday");
    reveal_strlit("next ");
    reveal_strlit("monday");
    reveal_strlit("mon");
    let s = "next monday"@;
    lemma_token_fixed(s);
    let l = text::trim_spec(text::lower(s));
    assert(l =~= s);
    assert(l.subrange(0, 5) =~= "next "@);
    let rest = text::trim_spec(l.skip(5));
    lemma_token_fixed(l.skip(5));
    assert(text::lower(l.skip(5)) =~= l.skip(5));
    assert(rest =~= "monday"@);
    assert(text::lower(rest) =~= "monday"@);
    assert(parse_weekday_s(rest) == Some(Weekday::Mon));
    lemma_next_weekday_hits(t, Weekday::Mon);
}

/// A token the resolver does not recognise passes through unchanged;
/// `2026-01-25`, already absolute, is such a token.
pub proof fn law_resolve_passthrough(s: Seq<char>, t: Date)
    requires
        !recognized_token(text::trim_spec(text::lower(s))),
    ensures
        resolve_spec(s, t) == s,
{
}

/// A sequence of lower-case letters is unchanged by lower-casing and
/// trimming.
proof fn lemma_token_fixed(s: Seq<char>)
    requires
        forall|i: int| 0 <= i < s.len() ==> ('a' <= #[trigger] s[i] && s[i] <= 'z') || s[i] == ' ',
        s.len() > 0 ==> s[0] != ' ' && s.last() != ' ',
    ensures
        text::lower(s) == s,
        text::trim_spec(s) == s,
        text::trim_spec(text::lower(s)) == s,
{
    assert(text::lower(s) =~= s);
    text::lemma_trim_range(s, 0, s.len() as int);
    assert(s.subrange(0, s.len() as int) =~= s);
}

/// Lower-casing twice is lower-casing once.
pub proof fn lemma_lower_idempotent(s: Seq<char>)
    ensures
        text::lower(text::lower(s)) == text::lower(s),
{
    assert(text::lower(text::lower(s)) =~= text::lower(s)) by {
        assert forall|i: int| 0 <= i < s.len() implies text::lower(text::lower(s))[i]
            == text::lower(s)[i] by {
            let c = s[i];
            assert(text::lower(s)[i] == text::lower_char(c));
            assert(text::lower(text::lower(s))[i] == text::lower_char(text::lower_char(c)));
            if 'A' <= c && c <= 'Z' {
                assert((c as u8 + 32) as char > 'Z');
            }
        }
    }
}

/// Date resolution ignores letter case: on any recognised token, the
/// lower-cased text resolves to the same date text.
pub proof fn law_resolve_case_insensitive(s: Seq<char>, t: Date)
    requires
        recognized_token(text::trim_spec(text::lower(s))),
    ensures
        resolve_spec(text::lower(s), t) == resolve_spec(s, t),
{
    lemma_lower_idempotent(s);
}

/// `next week` ranges from the current date to six days ahead.
pub proof fn law_range_next_week(t: Date)
    requires
        valid_date(t),
        t.year <= 9998,
    ensures
        range_spec("next week"@, t).0 == date_str(t),
        range_spec("next week"@, t).1 == Some(date_str(add_days_s(t, 6))),
        day_index(add_days_s(t, 6)) == day_index(t) + 6,
{
    reveal_strlit("next week");
    lemma_token_fixed("next week"@);
    assert(text::trim_spec(text::lower("next week"@)) =~= "next week"@);
    lemma_weekday_after_add(t, 6);
}

/// A `next N days` token ranges from the current date to `N - 1` days
/// ahead, whenever that end date is still representable.
pub proof fn law_range_day_count(s: Seq<char>, t: Date, n: int)
    requires
        valid_date(t),
        t.year <= 9998,
        text::trim_spec(text::lower(s)) != "next week"@,
        next_n_days_count(text::trim_spec(text::lower(s))) == Some(n),
        can_add(t, day_count_offset(n)),
    ensures
        range_spec(s, t).0 == date_str(t),
        range_spec(s, t).1 == Some(date_str(add_days_s(t, day_count_offset(n)))),
        day_index(add_days_s(t, day_count_offset(n))) == day_index(t) + day_count_offset(n),
{
    let off = day_count_offset(n);
    lemma_bounded_add_index(t, off);
}

/// Within the supported years, adding days always shifts the day index by
/// the count: the counting stays in range exactly when it never crosses
/// the last supported date.
pub proof fn lemma_bounded_add_index(t: Date, off: nat)
    requires
        valid_date(t),
        can_add(t, off),
    ensures
        day_index(add_days_s(t, off)) == day_index(t) + off,
        valid_date(add_days_s(t, off)),
    decreases off,
{
    if off > 0 {
        assert(add_days_s(t, 0) == t);
        assert(t != (Date { year: 9999, month: 12, day: 31 }));
        lemma_next_day_index(t);
        lemma_next_day_shape(t);
        let nx = next_day_s(t);
        assert(valid_date(nx)) by {
            if t.year == 9999 {
                assert(t.month < 12 || t.day < days_in_month(t.year as int, t.month as int));
            }
        };
        assert(can_add(nx, (off - 1) as nat)) by {
            assert forall|k: nat| k < off - 1 implies add_days_s(nx, k)
                != (Date { year: 9999, month: 12, day: 31 }) by {
                lemma_add_days_unroll(t, k);
                assert(add_days_s(t, (k + 1) as nat) == add_days_s(nx, k)) by {
                    assert(add_days_s(t, (k + 1) as nat) == add_days_s(nx, ((k + 1) - 1) as nat));
                };
            }
        };
        lemma_bounded_add_index(nx, (off - 1) as nat);
    }
}

/// `this weekend` starts on a Saturday and ends the day after, a Sunday.
pub proof fn law_range_weekend(t: Date)
    requires
        valid_date(t),
        t.year <= 9998,
    ensures
        ({
            let sat = add_days_s(t, days_to_saturday(t) as nat);
            &&& range_spec("this weekend"@, t).0 == date_str(sat)
            &&& range_spec("this weekend"@, t).1 == Some(date_str(next_day_s(sat)))
            &&& weekday_of(sat) == wd_num(Weekday::Sat)
            &&& day_index(next_day_s(sat)) == day_index(sat) + 1
            &&& weekday_of(next_day_s(sat)) == wd_num(Weekday::Sun)
        }),
{
    reveal_strlit("this weekend");
    reveal_strlit("next week");
    lemma_token_fixed("this weekend"@);
    assert(text::trim_spec(text::lower("this weekend"@)) =~= "this weekend"@);
    assert(next_n_days_count("this weekend"@) is None) by {
        reveal_strlit("next ");
        assert("this weekend"@.len() == 12);
        assert("this weekend"@.subrange(0, 5) != "next "@) by {
            assert("this weekend"@.subrange(0, 5)[0] == 't');
            assert("next "@[0] == 'n');
        };
    };
    let k = days_to_saturday(t);
    vstd::arithmetic::div_mod::lemma_mod_division_less_than_divisor(day_index(t), 7);
    lemma_day_index_nonneg(t);
    lemma_weekday_after_add(t, k as nat);
    lemma_can_add_small(t, k as nat);
    lemma_small_add_shape(t, k as nat);
    let sat = add_days_s(t, k as nat);
    assert(weekday_of(sat) == 5) by {
        let wd = weekday_of(t);
        if wd <= 5 {
            vstd::arithmetic::div_mod::lemma_small_mod(5nat, 7);
        } else {
            vstd::arithmetic::div_mod::lemma_mod_add_multiples_vanish(5, 7);
            vstd::arithmetic::div_mod::lemma_small_mod(5nat, 7);
        }
    };
    assert(1 <= sat.year < u64::MAX);
    lemma_next_day_index(sat);
    assert(weekday_of(next_day_s(sat)) == 6) by {
        vstd::arithmetic::div_mod::lemma_mod_is_mod_recursive(day_index(sat), 7);
        vstd::arithmetic::div_mod::lemma_fundamental_div_mod(day_index(sat), 7);
        let q = day_index(sat) / 7;
        assert(day_index(sat) == 7 * q + 5);
        assert(day_index(next_day_s(sat)) == 7 * q + 6);
        vstd::arithmetic::div_mod::lemma_mod_multiples_vanish(q, 6, 7);
        vstd::arithmetic::div_mod::lemma_small_mod(6nat, 7);
    };
}

/// A token that is no range form resolves as a single date with no end.
pub proof fn law_range_single(s: Seq<char>, t: Date)
    requires
        ({
            let l = text::trim_spec(text::lower(s));
            &&& l != "next week"@
            &&& l != "this weekend"@
            &&& next_n_days_count(l) is None
            &&& l != "forecast"@
        }),
    ensures
        range_spec(s, t) == (resolve_spec(s, t), None::<Seq<char>>),
{
}

} // verus!
