use crate::date::{civil_from_days, date_if, lemma_date_if, num_in_range, Date};
use vstd::prelude::*;

verus! {

/// How a date that is not a business day is moved onto one.
#[derive(Clone, Copy, Debug, PartialEq, Eq, Structural)]
pub enum BusdayConvention {
    /// The next business day.
    Following,
    /// The next business day, unless that is in the next month: then the
    /// previous one.
    ModifiedFollowing,
    /// The previous business day.
    Preceding,
    /// The previous business day, unless that is in the previous month: then
    /// the next one.
    ModifiedPreceding,
    /// No move.
    Unadjusted,
}

/// A business calendar (holidays and weekend days). Schedules and day counts
/// consult it and never change it. Its rules are the implementor's own; the
/// contract asks only that each answer is a function of the arguments, named
/// by the spec functions below.
pub trait BusinessCalendar {
    /// What `adjust` returns.
    spec fn adjusted(&self, dt: Date, conv: BusdayConvention) -> Date;

    /// What `add_busdays` returns.
    spec fn add_busdays_of(&self, dt: Date, n: u32) -> Option<Date>;

    /// What `sub_busdays` returns.
    spec fn sub_busdays_of(&self, dt: Date, n: u32) -> Option<Date>;

    /// What `busday_count` returns.
    spec fn busday_count_of(&self, start: Date, end: Date) -> i64;

    /// `dt` moved onto a business day under `conv`.
    fn adjust(&self, dt: Date, conv: BusdayConvention) -> (r: Date)
        ensures
            r == self.adjusted(dt, conv),
    ;

    /// The date `n` business days after `dt`, the landing day moved to the
    /// following business day; `None` when out of range.
    fn add_busdays(&self, dt: Date, n: u32) -> (r: Option<Date>)
        ensures
            r == self.add_busdays_of(dt, n),
    ;

    /// The date `n` business days before `dt`, the landing day moved to the
    /// following business day; `None` when out of range.
    fn sub_busdays(&self, dt: Date, n: u32) -> (r: Option<Date>)
        ensures
            r == self.sub_busdays_of(dt, n),
    ;

    /// Number of business days in `[start, end)`.
    fn busday_count(&self, start: Date, end: Date) -> (r: i64)
        ensures
            r == self.busday_count_of(start, end),
    ;
}

/// The calendar in which every day is a business day: adjustment leaves a
/// date alone, business-day steps are calendar-day steps, and the count is
/// the signed number of days.
#[derive(Clone, Copy, Debug, PartialEq, Eq, Structural)]
pub struct EveryDayCalendar;

impl BusinessCalendar for EveryDayCalendar {
    open spec fn adjusted(&self, dt: Date, conv: BusdayConvention) -> Date {
        dt
    }

    open spec fn add_busdays_of(&self, dt: Date, n: u32) -> Option<Date> {
        date_if(num_in_range(dt.num() + n), civil_from_days(dt.num() + n))
    }

    open spec fn sub_busdays_of(&self, dt: Date, n: u32) -> Option<Date> {
        date_if(num_in_range(dt.num() - n), civil_from_days(dt.num() - n))
    }

    open spec fn busday_count_of(&self, start: Date, end: Date) -> i64 {
        (end.num() - start.num()) as i64
    }

    fn adjust(&self, dt: Date, conv: BusdayConvention) -> (r: Date) {
        dt
    }

    fn add_busdays(&self, dt: Date, n: u32) -> (r: Option<Date>) {
        let r = dt.add_days(n as u64);
        proof {
            lemma_date_if(num_in_range(dt.num() + n), civil_from_days(dt.num() + n), r);
        }
        r
    }

    fn sub_busdays(&self, dt: Date, n: u32) -> (r: Option<Date>) {
        let r = dt.sub_days(n as u64);
        proof {
            lemma_date_if(num_in_range(dt.num() - n), civil_from_days(dt.num() - n), r);
        }
        r
    }

    fn busday_count(&self, start: Date, end: Date) -> (r: i64) {
        start.days_until(&end)
    }
}

/// A calendar together with the adjustment rule to apply with it.
pub struct Adjuster<'t, C> {
    pub buscal: &'t C,
    pub conv: BusdayConvention,
}

impl<'t, C: BusinessCalendar> Adjuster<'t, C> {
    pub fn new(buscal: &'t C, conv: BusdayConvention) -> (r: Self)
        ensures
            r.buscal == buscal,
            r.conv == conv,
    {
        Adjuster { buscal, conv }
    }

    /// `dt` moved onto a business day of the calendar under the rule.
    pub fn adjust(&self, dt: Date) -> (r: Date)
        ensures
            r == self.buscal.adjusted(dt, self.conv),
    {
        self.buscal.adjust(dt, self.conv)
    }
}

} // verus!
