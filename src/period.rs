use crate::calendar::BusinessCalendar;
use crate::date::{civil_from_days, num_in_range, shift_months, Date, MAX_YEAR, MIN_YEAR};
use vstd::prelude::*;

verus! {

/// A step between dates: a number of calendar days, weeks, months or years,
/// or of business days of a calendar.
pub enum Period<'a, C> {
    BusDays(u32, &'a C),
    Days(u32),
    Months(u32),
    Weeks(u32),
    Years(u32),
}

impl<'a, C> Clone for Period<'a, C> {
    fn clone(&self) -> (r: Self)
        ensures
            r == *self,
    {
        *self
    }
}

impl<'a, C> Copy for Period<'a, C> {
}

impl<'a, C> Period<'a, C> {
    /// The number of units in one step.
    pub open spec fn amount(self) -> int {
        match self {
            Period::BusDays(n, _) => n as int,
            Period::Days(n) => n as int,
            Period::Months(n) => n as int,
            Period::Weeks(n) => n as int,
            Period::Years(n) => n as int,
        }
    }

    pub fn is_days(&self) -> (r: bool)
        ensures
            r == (*self is Days),
    {
        match self {
            Period::Days(_) => true,
            _ => false,
        }
    }

    pub fn is_zero(&self) -> (r: bool)
        ensures
            r == (self.amount() == 0),
    {
        match self {
            Period::BusDays(n, _) => *n == 0,
            Period::Days(n) => *n == 0,
            Period::Months(n) => *n == 0,
            Period::Weeks(n) => *n == 0,
            Period::Years(n) => *n == 0,
        }
    }
}

impl<'a, C: BusinessCalendar> Period<'a, C> {
    /// Year, month and day one step forward (or back) from `dt`; for calendar
    /// steps the components may lie out of range, for business-day steps they
    /// are the calendar's answer (or `dt`'s own when it has none).
    pub open spec fn shifted(self, dt: Date, forward: bool) -> (int, int, int) {
        let k = if forward { self.amount() } else { -self.amount() };
        match self {
            Period::Days(_) => civil_from_days(dt.num() + k),
            Period::Weeks(_) => civil_from_days(dt.num() + 7 * k),
            Period::Months(_) => shift_months(dt.y(), dt.m(), dt.d(), k),
            Period::Years(_) => shift_months(dt.y(), dt.m(), dt.d(), 12 * k),
            Period::BusDays(n, cal) => {
                let r = if forward { cal.add_busdays_of(dt, n) } else { cal.sub_busdays_of(dt, n) };
                match r {
                    Some(x) => x.ymd(),
                    None => dt.ymd(),
                }
            },
        }
    }

    /// The step from `dt` lands inside the range of dates (for business-day
    /// steps: the calendar gives a date).
    pub open spec fn lands(self, dt: Date, forward: bool) -> bool {
        match self {
            Period::BusDays(n, cal) => if forward {
                cal.add_busdays_of(dt, n) is Some
            } else {
                cal.sub_busdays_of(dt, n) is Some
            },
            Period::Days(n) => num_in_range(if forward { dt.num() + n } else { dt.num() - n }),
            Period::Weeks(n) => num_in_range(
                if forward { dt.num() + 7 * n } else { dt.num() - 7 * n },
            ),
            _ => MIN_YEAR <= self.shifted(dt, forward).0 <= MAX_YEAR,
        }
    }

    /// The date one step after `dt`; `None` when that date is out of range.
    pub fn next(&self, dt: Date) -> (r: Option<Date>)
        ensures
            r is Some <==> self.lands(dt, true),
            r matches Some(x) ==> x.ymd() == self.shifted(dt, true),
            *self matches Period::BusDays(n, cal) ==> r == cal.add_busdays_of(dt, n),
            *self matches Period::Days(n) ==> (r matches Some(x) ==> x.num() == dt.num() + n),
    {
        match *self {
            Period::BusDays(n, cal) => cal.add_busdays(dt, n),
            Period::Days(n) => dt.add_days(n as u64),
            Period::Months(n) => dt.add_months(n),
            Period::Weeks(n) => dt.add_days(n as u64 * 7),
            Period::Years(n) => {
                if n > u32::MAX / 12 {
                    let y = dt.year();
                    let m = dt.month();
                    assert(dt.y() * 12 + (dt.m() - 1) + 12 * n >= (MAX_YEAR + 1) * 12);
                    None
                } else {
                    dt.add_months(n * 12)
                }
            },
        }
    }

    /// The date one step before `dt`; `None` when that date is out of range.
    pub fn prev(&self, dt: Date) -> (r: Option<Date>)
        ensures
            r is Some <==> self.lands(dt, false),
            r matches Some(x) ==> x.ymd() == self.shifted(dt, false),
            *self matches Period::BusDays(n, cal) ==> r == cal.sub_busdays_of(dt, n),
            *self matches Period::Days(n) ==> (r matches Some(x) ==> x.num() == dt.num() - n),
    {
        match *self {
            Period::BusDays(n, cal) => cal.sub_busdays(dt, n),
            Period::Days(n) => dt.sub_days(n as u64),
            Period::Months(n) => dt.sub_months(n),
            Period::Weeks(n) => dt.sub_days(n as u64 * 7),
            Period::Years(n) => {
                if n > u32::MAX / 12 {
                    let y = dt.year();
                    let m = dt.month();
                    assert(dt.y() * 12 + (dt.m() - 1) - 12 * n < MIN_YEAR * 12);
                    None
                } else {
                    dt.sub_months(n * 12)
                }
            },
        }
    }
}

} // verus!
