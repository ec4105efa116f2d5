use g_forms::nav::{
    month_select_plan, namelist_fetch_plan, namelist_nav_plan, next_date, plus_days, prev_date,
    year_select_plan, CalendarDate, FetchPlan, NameList,
};

fn d(year: i32, month: u32, day: u32) -> CalendarDate {
    CalendarDate { year, month, day }
}

/// Day stepping honours month ends and leap years.
#[test]
fn date_stepping() {
    assert_eq!(next_date(&d(2023, 1, 31)), d(2023, 2, 1));
    assert_eq!(next_date(&d(2023, 2, 28)), d(2023, 3, 1));
    assert_eq!(next_date(&d(2024, 2, 28)), d(2024, 2, 29));
    assert_eq!(next_date(&d(2024, 2, 29)), d(2024, 3, 1));
    assert_eq!(next_date(&d(2023, 12, 31)), d(2024, 1, 1));
    assert_eq!(next_date(&d(1900, 2, 28)), d(1900, 3, 1));
    assert_eq!(next_date(&d(2000, 2, 28)), d(2000, 2, 29));

    assert_eq!(prev_date(&d(2024, 3, 1)), d(2024, 2, 29));
    assert_eq!(prev_date(&d(2024, 1, 1)), d(2023, 12, 31));
    assert_eq!(prev_date(&d(2024, 5, 2)), d(2024, 5, 1));

    assert_eq!(plus_days(&d(2023, 12, 30), 3), d(2024, 1, 2));
    assert_eq!(plus_days(&d(2023, 6, 1), 0), d(2023, 6, 1));
}

/// The month selector presents thirty-one consecutive days and the
/// neighbouring months.
#[test]
fn month_selector() {
    let (days, year, prev, next) = month_select_plan(&d(2023, 6, 15));
    assert_eq!(days.len(), 31);
    assert_eq!(days[0], NameList::Get(d(2023, 6, 1), false, false));
    assert_eq!(days[29], NameList::Get(d(2023, 6, 30), false, false));
    assert_eq!(days[30], NameList::Get(d(2023, 7, 1), false, false));
    assert_eq!(year, NameList::YearSelect(d(2023, 6, 15)));
    assert_eq!(prev, NameList::MonthSelect(d(2023, 5, 31)));
    assert_eq!(next, NameList::MonthSelect(d(2023, 7, 4)));
}

/// The year selector presents the twelve months and the neighbouring
/// years.
#[test]
fn year_selector() {
    let (months, next, prev) = year_select_plan(&d(2023, 6, 15));
    assert_eq!(months.len(), 12);
    assert_eq!(months[0], NameList::MonthSelect(d(2023, 1, 1)));
    assert_eq!(months[11], NameList::MonthSelect(d(2023, 12, 1)));
    assert_eq!(next, NameList::YearSelect(d(2024, 1, 1)));
    assert_eq!(prev, NameList::YearSelect(d(2022, 1, 1)));
}

/// A fetched namelist's navigation targets the neighbouring days, a
/// refresh, the other slot, and the calendar.
#[test]
fn namelist_navigation() {
    let (prev, next, refresh, other, calendar) = namelist_nav_plan(&d(2023, 6, 15), true);
    assert_eq!(prev, NameList::Get(d(2023, 6, 14), true, false));
    assert_eq!(next, NameList::Get(d(2023, 6, 16), true, false));
    assert_eq!(refresh, NameList::Get(d(2023, 6, 15), true, true));
    assert_eq!(other, NameList::Get(d(2023, 6, 15), false, false));
    assert_eq!(calendar, NameList::MonthSelect(d(2023, 6, 15)));
}

/// The cache decision: fetch when absent, refresh only when asked.
#[test]
fn fetch_plan() {
    assert_eq!(namelist_fetch_plan(false, false), FetchPlan::FetchSheet);
    assert_eq!(namelist_fetch_plan(false, true), FetchPlan::FetchSheet);
    assert_eq!(namelist_fetch_plan(true, false), FetchPlan::UseCache);
    assert_eq!(namelist_fetch_plan(true, true), FetchPlan::RefreshThenCache);
}
