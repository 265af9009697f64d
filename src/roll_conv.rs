use crate::calendar::BusinessCalendar;
use crate::date::{month_len, Date, MAX_YEAR, MIN_YEAR};
use crate::period::Period;
use vstd::prelude::*;

verus! {

/// A rule that moves a date to a fixed day of its month.
pub trait Roll {
    /// Whether the rule can be applied to every date.
    spec fn well_formed(&self) -> bool;

    /// Year, month and day that the rule makes of a valid date `t`.
    spec fn rolled(&self, t: (int, int, int)) -> (int, int, int);

    /// Roll `dt` to the date that the rule gives.
    fn adjust(&self, dt: Date) -> (r: Date)
        requires
            self.well_formed(),
        ensures
            r.ymd() == self.rolled(dt.ymd()),
    ;

    /// One `period` after `dt`, then rolled; `None` when out of range.
    fn next<'a, C: BusinessCalendar>(&self, dt: Date, period: Period<'a, C>) -> (r: Option<Date>)
        requires
            self.well_formed(),
        ensures
            (r is Some <==> period.lands(dt, true)),
            (r matches Some(x) ==> x.ymd() == self.rolled(
                period.shifted(dt, true),
            )),
    ;

    /// One `period` before `dt`, then rolled; `None` when out of range.
    fn prev<'a, C: BusinessCalendar>(&self, dt: Date, period: Period<'a, C>) -> (r: Option<Date>)
        requires
            self.well_formed(),
        ensures
            (r is Some <==> period.lands(dt, false)),
            (r matches Some(x) ==> x.ymd() == self.rolled(
                period.shifted(dt, false),
            )),
    ;
}

#[derive(Clone, Copy, Debug, PartialEq, Eq, Structural)]
pub enum RollConvention {
    /// Roll to a given day of the month, or to the month's last day if it is
    /// shorter.
    DayOfMonth(u32),
    /// Roll to the first day of the month.
    Bom,
    /// Roll to the last day of the month.
    Eom,
    /// Leave the date as it is.
    NoRoll,
}

impl RollConvention {
    pub open spec fn roll_ymd(self, t: (int, int, int)) -> (int, int, int) {
        match self {
            RollConvention::DayOfMonth(d) => (t.0, t.1, if d <= month_len(t.0, t.1) {
                d as int
            } else {
                month_len(t.0, t.1)
            }),
            RollConvention::Bom => (t.0, t.1, 1),
            RollConvention::Eom => (t.0, t.1, month_len(t.0, t.1)),
            RollConvention::NoRoll => t,
        }
    }

    /// Year, month and day of `self.next(dt, period)`, `None` when out of
    /// range; for periods that need no calendar.
    pub open spec fn next_ymd<'a, C: BusinessCalendar>(self, dt: Date, period: Period<'a, C>) -> Option<
        (int, int, int),
    > {
        if period.lands(dt, true) {
            Some(self.roll_ymd(period.shifted(dt, true)))
        } else {
            None
        }
    }

    /// Year, month and day of `self.prev(dt, period)`, as `next_ymd`.
    pub open spec fn prev_ymd<'a, C: BusinessCalendar>(self, dt: Date, period: Period<'a, C>) -> Option<
        (int, int, int),
    > {
        if period.lands(dt, false) {
            Some(self.roll_ymd(period.shifted(dt, false)))
        } else {
            None
        }
    }

    fn day_of_month(&self, dt: Date, d: u32) -> (r: Date)
        requires
            d >= 1,
        ensures
            r.ymd() == RollConvention::DayOfMonth(d).roll_ymd(dt.ymd()),
    {
        let max = dt.num_days_in_month();
        dt.with_day(if d < max { d } else { max })
    }
}

impl Roll for RollConvention {
    open spec fn well_formed(&self) -> bool {
        !(*self matches RollConvention::DayOfMonth(0))
    }

    open spec fn rolled(&self, t: (int, int, int)) -> (int, int, int) {
        self.roll_ymd(t)
    }

    fn adjust(&self, dt: Date) -> (r: Date) {
        match *self {
            RollConvention::DayOfMonth(d) => self.day_of_month(dt, d),
            RollConvention::Bom => dt.with_day(1),
            RollConvention::Eom => dt.with_day(dt.num_days_in_month()),
            RollConvention::NoRoll => dt,
        }
    }

    fn next<'a, C: BusinessCalendar>(&self, dt: Date, period: Period<'a, C>) -> (r: Option<Date>) {
        match period.next(dt) {
            Some(x) => Some(self.adjust(x)),
            None => None,
        }
    }

    fn prev<'a, C: BusinessCalendar>(&self, dt: Date, period: Period<'a, C>) -> (r: Option<Date>) {
        match period.prev(dt) {
            Some(x) => Some(self.adjust(x)),
            None => None,
        }
    }
}

/// Stepping `m` months without rolling keeps the day of month, or clamps it
/// to the last day of the target month when that month is shorter.
pub proof fn lemma_month_step_clamps<'a, C: BusinessCalendar>(dt: Date, m: u32)
    ensures
        ({
            let t = RollConvention::NoRoll.roll_ymd(Period::<'a, C>::Months(m).shifted(dt, true));
            &&& t.2 == if dt.d() > month_len(t.0, t.1) { month_len(t.0, t.1) } else { dt.d() }
            &&& t.0 * 12 + t.1 == dt.y() * 12 + dt.m() + m
        }),
{
    let t = dt.y() * 12 + (dt.m() - 1) + m;
    vstd::arithmetic::div_mod::lemma_fundamental_div_mod(t, 12);
}

} // verus!
