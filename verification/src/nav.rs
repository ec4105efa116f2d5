//! Calendar navigation for the namelist callbacks: the dates and
//! targets each callback presents, and the cache decision of a
//! namelist fetch, computed as plain values.
//!
//! The surrounding system renders these targets as keyboards and
//! performs the fetches; this module holds only the decisions.

use vstd::prelude::*;

verus! {

/// A calendar date as plain values.
#[derive(Clone, Copy, Debug, PartialEq, Eq, Structural)]
pub struct CalendarDate {
    /// The calendar year.
    pub year: i32,
    /// Month of the year, starting from 1.
    pub month: u32,
    /// Day of the month, starting from 1.
    pub day: u32,
}

/// Whether a year is a leap year.
pub open spec fn is_leap(y: int) -> bool {
    (y % 4 == 0 && y % 100 != 0) || y % 400 == 0
}

/// How many days the month of a year has.
pub open spec fn days_in_month(y: int, m: int) -> int {
    if m == 2 {
        if is_leap(y) {
            29
        } else {
            28
        }
    } else if m == 4 || m == 6 || m == 9 || m == 11 {
        30
    } else {
        31
    }
}

impl CalendarDate {
    /// Well-formed: a real calendar date within the representable
    /// year range.
    pub open spec fn wf(self) -> bool {
        &&& -9999 <= self.year <= 9999
        &&& 1 <= self.month <= 12
        &&& 1 <= self.day <= days_in_month(self.year as int, self.month as int)
    }
}

/// The next calendar date; the upper end of the representable range
/// is a fixed point.
pub open spec fn spec_next_date(d: CalendarDate) -> CalendarDate {
    if (d.day as int) < days_in_month(d.year as int, d.month as int) {
        CalendarDate { day: (d.day + 1) as u32, ..d }
    } else if d.month < 12 {
        CalendarDate { month: (d.month + 1) as u32, day: 1, ..d }
    } else if d.year < 9999 {
        CalendarDate { year: (d.year + 1) as i32, month: 1, day: 1 }
    } else {
        d
    }
}

/// The previous calendar date; the lower end of the representable
/// range is a fixed point.
pub open spec fn spec_prev_date(d: CalendarDate) -> CalendarDate {
    if d.day > 1 {
        CalendarDate { day: (d.day - 1) as u32, ..d }
    } else if d.month > 1 {
        CalendarDate {
            month: (d.month - 1) as u32,
            day: days_in_month(d.year as int, (d.month - 1) as int) as u32,
            ..d
        }
    } else if d.year > -9999 {
        CalendarDate { year: (d.year - 1) as i32, month: 12, day: 31 }
    } else {
        d
    }
}

/// The date a number of days after a date.
pub open spec fn spec_plus_days(d: CalendarDate, n: nat) -> CalendarDate
    decreases n,
{
    if n == 0 {
        d
    } else {
        spec_next_date(spec_plus_days(d, (n - 1) as nat))
    }
}

/// How many days the month of a year has.
pub fn days_in_month_exec(y: i32, m: u32) -> (r: u32)
    requires
        1 <= m <= 12,
    ensures
        r == days_in_month(y as int, m as int),
{
    if m == 2 {
        if (y % 4 == 0 && y % 100 != 0) || y % 400 == 0 {
            29
        } else {
            28
        }
    } else if m == 4 || m == 6 || m == 9 || m == 11 {
        30
    } else {
        31
    }
}

/// The next calendar date.
pub fn next_date(d: &CalendarDate) -> (r: CalendarDate)
    requires
        d.wf(),
    ensures
        r == spec_next_date(*d),
        r.wf(),
{
    let dim = days_in_month_exec(d.year, d.month);
    if d.day < dim {
        CalendarDate { day: d.day + 1, ..*d }
    } else if d.month < 12 {
        CalendarDate { month: d.month + 1, day: 1, ..*d }
    } else if d.year < 9999 {
        CalendarDate { year: d.year + 1, month: 1, day: 1 }
    } else {
        *d
    }
}

/// The previous calendar date.
pub fn prev_date(d: &CalendarDate) -> (r: CalendarDate)
    requires
        d.wf(),
    ensures
        r == spec_prev_date(*d),
        r.wf(),
{
    if d.day > 1 {
        CalendarDate { day: d.day - 1, ..*d }
    } else if d.month > 1 {
        let dim = days_in_month_exec(d.year, d.month - 1);
        CalendarDate { month: d.month - 1, day: dim, ..*d }
    } else if d.year > -9999 {
        CalendarDate { year: d.year - 1, month: 12, day: 31 }
    } else {
        *d
    }
}

/// The date a number of days after a date.
pub fn plus_days(d: &CalendarDate, n: u32) -> (r: CalendarDate)
    requires
        d.wf(),
    ensures
        r == spec_plus_days(*d, n as nat),
        r.wf(),
{
    let mut cur = *d;
    let mut i: u32 = 0;
    while i < n
        invariant
            i <= n,
            cur.wf(),
            cur == spec_plus_days(*d, i as nat),
        decreases n - i,
    {
        cur = next_date(&cur);
        i = i + 1;
    }
    cur
}

/// One namelist callback: fetch a date's list (with its time slot and
/// refresh flags), or open the month or year selector.
#[derive(Clone, Copy, Debug, PartialEq, Eq, Structural)]
pub enum NameList {
    /// Fetch the list for a date: the date, the time slot, and
    /// whether to refresh the cache.
    Get(CalendarDate, bool, bool),
    /// Open the month selector around a date.
    MonthSelect(CalendarDate),
    /// Open the year selector around a date.
    YearSelect(CalendarDate),
}

/// The first day of a date's month.
pub open spec fn spec_month_start(d: CalendarDate) -> CalendarDate {
    CalendarDate { day: 1, ..d }
}

/// What the month selector presents: a fetch target for each of the
/// thirty-one days from the month's start, the year selector, and the
/// previous and next months — reached by stepping one day back and
/// thirty-three days forward from the start.
pub fn month_select_plan(d: &CalendarDate) -> (r: (Vec<NameList>, NameList, NameList, NameList))
    requires
        d.wf(),
    ensures
        r.0@.len() == 31,
        forall|k: int|
            0 <= k < 31 ==> r.0@[k] == NameList::Get(
                spec_plus_days(spec_month_start(*d), k as nat),
                false,
                false,
            ),
        r.1 == NameList::YearSelect(*d),
        r.2 == NameList::MonthSelect(spec_prev_date(spec_month_start(*d))),
        r.3 == NameList::MonthSelect(spec_plus_days(spec_month_start(*d), 33)),
{
    let start = CalendarDate { day: 1, ..*d };
    let mut days: Vec<NameList> = Vec::new();
    let mut k: u32 = 0;
    while k < 31
        invariant
            start == spec_month_start(*d),
            start.wf(),
            k <= 31,
            days@.len() == k,
            forall|j: int|
                0 <= j < k ==> days@[j] == NameList::Get(
                    spec_plus_days(spec_month_start(*d), j as nat),
                    false,
                    false,
                ),
        decreases 31 - k,
    {
        let day = plus_days(&start, k);
        days.push(NameList::Get(day, false, false));
        k = k + 1;
    }
    let year = NameList::YearSelect(*d);
    let prev = NameList::MonthSelect(prev_date(&start));
    let next = NameList::MonthSelect(plus_days(&start, 33));
    (days, year, prev, next)
}

/// What the year selector presents: the month selector for each of
/// the twelve months of the date's year, and the year selectors of
/// the neighbouring years.
pub fn year_select_plan(d: &CalendarDate) -> (r: (Vec<NameList>, NameList, NameList))
    requires
        d.wf(),
        -9998 <= d.year <= 9998,
    ensures
        r.0@.len() == 12,
        forall|m: int|
            0 <= m < 12 ==> r.0@[m] == NameList::MonthSelect(
                (CalendarDate { year: d.year, month: (1 + m) as u32, day: 1 }),
            ),
        r.1 == NameList::YearSelect((CalendarDate { year: (d.year + 1) as i32, month: 1, day: 1 })),
        r.2 == NameList::YearSelect((CalendarDate { year: (d.year - 1) as i32, month: 1, day: 1 })),
{
    let mut months: Vec<NameList> = Vec::new();
    let mut m: u32 = 0;
    while m < 12
        invariant
            m <= 12,
            months@.len() == m,
            forall|j: int|
                0 <= j < m ==> months@[j] == NameList::MonthSelect(
                    (CalendarDate { year: d.year, month: (1 + j) as u32, day: 1 }),
                ),
        decreases 12 - m,
    {
        months.push(NameList::MonthSelect(CalendarDate { year: d.year, month: 1 + m, day: 1 }));
        m = m + 1;
    }
    let next = NameList::YearSelect(CalendarDate { year: d.year + 1, month: 1, day: 1 });
    let prev = NameList::YearSelect(CalendarDate { year: d.year - 1, month: 1, day: 1 });
    (months, next, prev)
}

/// What a fetched namelist's navigation presents: the neighbouring
/// days with the same slot, a refresh of the same date, the other
/// slot, and the month selector.
pub fn namelist_nav_plan(date: &CalendarDate, time_slot: bool) -> (r: (
    NameList,
    NameList,
    NameList,
    NameList,
    NameList,
))
    requires
        date.wf(),
    ensures
        r.0 == NameList::Get(spec_prev_date(*date), time_slot, false),
        r.1 == NameList::Get(spec_next_date(*date), time_slot, false),
        r.2 == NameList::Get(*date, time_slot, true),
        r.3 == NameList::Get(*date, !time_slot, false),
        r.4 == NameList::MonthSelect(*date),
{
    let prev = NameList::Get(prev_date(date), time_slot, false);
    let next = NameList::Get(next_date(date), time_slot, false);
    let refresh = NameList::Get(*date, time_slot, true);
    let other = NameList::Get(*date, !time_slot, false);
    let calendar = NameList::MonthSelect(*date);
    (prev, next, refresh, other, calendar)
}

/// Where a namelist fetch takes its data from.
#[derive(Clone, Copy, Debug, PartialEq, Eq, Structural)]
pub enum FetchPlan {
    /// The cached sheet serves the request.
    UseCache,
    /// Refresh the cache, then read it.
    RefreshThenCache,
    /// Fetch the sheet directly.
    FetchSheet,
}

/// Decide where a namelist fetch takes its data from: a date outside
/// the cache is fetched; a cached date is refreshed first only when
/// asked.
pub fn namelist_fetch_plan(in_cache: bool, refresh: bool) -> (r: FetchPlan)
    ensures
        r == (if !in_cache {
            FetchPlan::FetchSheet
        } else if refresh {
            FetchPlan::RefreshThenCache
        } else {
            FetchPlan::UseCache
        }),
{
    if !in_cache {
        FetchPlan::FetchSheet
    } else if refresh {
        FetchPlan::RefreshThenCache
    } else {
        FetchPlan::UseCache
    }
}

} // verus!
