use crate::calendar::BusinessCalendar;
use crate::date::{day_number, is_leap_year, year_len, ymd_lt, Date, MAX_YEAR, MIN_YEAR};
use vstd::prelude::*;

verus! {

/// Day count conventions, each turning a date range into a fraction of a year.
pub enum Daycounts<'t, C> {
    Act360,
    Act365,
    Act365F,
    ActActIsda,
    Bus252(&'t C),
}

/// A year fraction held exactly: `days / basis + rest_days / rest_basis`.
/// Conventions that divide once leave `rest_days` at zero.
#[derive(Clone, Copy, Debug, PartialEq, Eq, Structural)]
pub struct YearFraction {
    pub days: i64,
    pub basis: i64,
    pub rest_days: i64,
    pub rest_basis: i64,
}

/// A 29 February falls strictly between `start` and `end`.
pub open spec fn spans_leap_day(start: Date, end: Date) -> bool {
    exists|y: int|
        is_leap_year(y) && #[trigger] ymd_lt(start.ymd(), (y, 2, 29)) && ymd_lt((y, 2, 29), end.ymd())
}

/// A single quotient of `days` over `basis`.
pub open spec fn single(days: int, basis: int) -> YearFraction {
    YearFraction { days: days as i64, basis: basis as i64, rest_days: 0, rest_basis: basis as i64 }
}

/// ACT/ACT ISDA: within one year the actual days over that year's length;
/// across years, the days up to 1 January of `end`'s year over the length of
/// `start`'s year, plus the days from there over the length of `end`'s year.
pub open spec fn act_act_isda_spec(start: Date, end: Date) -> YearFraction {
    if start.y() == end.y() {
        single(end.num() - start.num(), year_len(start.y()))
    } else {
        let mid = day_number(end.y(), 1, 1);
        YearFraction {
            days: (mid - start.num()) as i64,
            basis: year_len(start.y()) as i64,
            rest_days: (end.num() - mid) as i64,
            rest_basis: year_len(end.y()) as i64,
        }
    }
}

impl<'t, C: BusinessCalendar> Daycounts<'t, C> {
    /// The year fraction from `start` to `end` under this convention
    /// (negative when `end` is before `start`).
    pub fn year_fraction(&self, start: Date, end: Date) -> (r: YearFraction)
        ensures
            match *self {
                Daycounts::Act360 => r == single(end.num() - start.num(), 360),
                Daycounts::Act365 => r == single(
                    end.num() - start.num(),
                    if spans_leap_day(start, end) { 366 } else { 365 },
                ),
                Daycounts::Act365F => r == single(end.num() - start.num(), 365),
                Daycounts::ActActIsda => r == act_act_isda_spec(start, end),
                Daycounts::Bus252(cal) => r == single(cal.busday_count_of(start, end) as int, 252),
            },
    {
        match *self {
            Daycounts::Act360 => act360(start, end),
            Daycounts::Act365 => act365(start, end),
            Daycounts::Act365F => act365f(start, end),
            Daycounts::ActActIsda => act_act_isda(start, end),
            Daycounts::Bus252(cal) => bus252(start, end, cal),
        }
    }
}

fn act360(start: Date, end: Date) -> (r: YearFraction)
    ensures
        r == single(end.num() - start.num(), 360),
{
    let days = start.days_until(&end);
    YearFraction { days, basis: 360, rest_days: 0, rest_basis: 360 }
}

fn act365f(start: Date, end: Date) -> (r: YearFraction)
    ensures
        r == single(end.num() - start.num(), 365),
{
    let days = start.days_until(&end);
    YearFraction { days, basis: 365, rest_days: 0, rest_basis: 365 }
}

fn act_act_isda(start: Date, end: Date) -> (r: YearFraction)
    ensures
        r == act_act_isda_spec(start, end),
{
    if start.year() == end.year() {
        return act_act_isda_sub(start, end);
    }
    let y = end.year();
    match Date::from_ymd(y, 1, 1) {
        Some(mid) => {
            let first = act_act_isda_sub(start, mid);
            let second = act_act_isda_sub(mid, end);
            YearFraction {
                days: first.days,
                basis: first.basis,
                rest_days: second.days,
                rest_basis: second.basis,
            }
        },
        None => {
            proof {
                assert(false);
            }
            act_act_isda_sub(start, end)
        },
    }
}

/// Actual days over the length of `start`'s year.
fn act_act_isda_sub(start: Date, end: Date) -> (r: YearFraction)
    ensures
        r == single(end.num() - start.num(), year_len(start.y())),
{
    let basis: i64 = if start.is_leap_year() {
        366
    } else {
        365
    };
    let days = start.days_until(&end);
    YearFraction { days, basis, rest_days: 0, rest_basis: basis }
}

fn act365(start: Date, end: Date) -> (r: YearFraction)
    ensures
        r == single(end.num() - start.num(), if spans_leap_day(start, end) { 366 } else { 365 }),
{
    let basis: i64 = if crosses_leap_day(start, end) {
        366
    } else {
        365
    };
    let days = start.days_until(&end);
    YearFraction { days, basis, rest_days: 0, rest_basis: basis }
}

fn bus252<C: BusinessCalendar>(start: Date, end: Date, cal: &C) -> (r: YearFraction)
    ensures
        r == single(cal.busday_count_of(start, end) as int, 252),
{
    let days = cal.busday_count(start, end);
    YearFraction { days, basis: 252, rest_days: 0, rest_basis: 252 }
}

/// Whether some 29 February lies strictly between `start` and `end`.
pub fn crosses_leap_day(start: Date, end: Date) -> (r: bool)
    ensures
        r == spans_leap_day(start, end),
{
    let first = start.year();
    let last = end.year();
    let mut y = first;
    while y <= last
        invariant
            first == start.y(),
            last == end.y(),
            first <= y,
            y <= last + 1 || y == first,
            MIN_YEAR <= first,
            last <= MAX_YEAR,
            forall|z: int|
                first <= z < y ==> !(is_leap_year(z) && #[trigger] ymd_lt(start.ymd(), (z, 2, 29))
                    && ymd_lt((z, 2, 29), end.ymd())),
        decreases last + 1 - y,
    {
        if let Some(leap_day) = Date::from_ymd(y, 2, 29) {
            if start.is_before(&leap_day) && leap_day.is_before(&end) {
                assert(is_leap_year(y as int) && ymd_lt(start.ymd(), (y as int, 2, 29)) && ymd_lt(
                    (y as int, 2, 29),
                    end.ymd(),
                ));
                return true;
            }
        }
        y = y + 1;
    }
    assert forall|z: int| !(is_leap_year(z) && #[trigger] ymd_lt(start.ymd(), (z, 2, 29)) && ymd_lt(
        (z, 2, 29),
        end.ymd(),
    )) by {
        if first <= z < y {
        }
    }
    false
}

} // verus!
