use crate::calendar::{BusdayConvention, BusinessCalendar};
use crate::date::{ymd_lt, Date};
use crate::period::Period;
use crate::roll_conv::{Roll, RollConvention};
use crate::SchedulingError;
use vstd::prelude::*;

verus! {

/// One accrual period: unadjusted start and end, and the business days they
/// were adjusted to.
#[derive(Clone, Copy, Debug, PartialEq, Eq, Structural)]
pub struct SchedulePeriod {
    pub start: Date,
    pub end: Date,
    pub start_adj: Date,
    pub end_adj: Date,
}

impl SchedulePeriod {
    /// The period does not end before it starts.
    pub open spec fn wf(self) -> bool {
        !self.end.before(self.start)
    }

    /// The end lies after the regular end one `period` from the start; a
    /// regular end out of range counts as later than any date.
    pub open spec fn long_stub_spec<'a, C: BusinessCalendar>(self, rc: RollConvention, period: Period<'a, C>) -> bool {
        rc.next_ymd(self.start, period) matches Some(t) && ymd_lt(t, self.end.ymd())
    }

    /// The end lies before the regular end one `period` from the start.
    pub open spec fn short_stub_spec<'a, C: BusinessCalendar>(self, rc: RollConvention, period: Period<'a, C>) -> bool {
        match rc.next_ymd(self.start, period) {
            Some(t) => ymd_lt(self.end.ymd(), t),
            None => true,
        }
    }

    /// A step forward from the start gives the end, and a step back from the
    /// end gives the start.
    pub open spec fn regular_spec<'a, C: BusinessCalendar>(self, rc: RollConvention, period: Period<'a, C>) -> bool {
        &&& rc.next_ymd(self.start, period) == Some(self.end.ymd())
        &&& rc.prev_ymd(self.end, period) == Some(self.start.ymd())
    }

    pub fn new(start: Date, end: Date, start_adj: Date, end_adj: Date) -> (r: Self)
        requires
            !end.before(start),
        ensures
            r == (SchedulePeriod { start, end, start_adj, end_adj }),
            r.wf(),
    {
        SchedulePeriod { start, end, start_adj, end_adj }
    }

    /// A period whose adjusted dates are `start` and `end` adjusted on the
    /// calendar under `conv`.
    pub fn new_adjust<C: BusinessCalendar>(
        start: Date,
        end: Date,
        buscal: &C,
        conv: BusdayConvention,
    ) -> (r: Self)
        requires
            !end.before(start),
        ensures
            r == (SchedulePeriod {
                start,
                end,
                start_adj: buscal.adjusted(start, conv),
                end_adj: buscal.adjusted(end, conv),
            }),
            r.wf(),
    {
        let start_adj = buscal.adjust(start, conv);
        let end_adj = buscal.adjust(end, conv);
        SchedulePeriod { start, end, start_adj, end_adj }
    }

    /// The period from `start` to one `period` later, rolled by `roll_conv`.
    /// Fails when that end is out of range or before `start`.
    pub fn new_relative<'a, C: BusinessCalendar>(
        start: Date,
        roll_conv: RollConvention,
        period: Period<'a, C>,
        buscal: &C,
        conv: BusdayConvention,
    ) -> (r: Result<Self, SchedulingError>)
        requires
            roll_conv.well_formed(),
        ensures
            r matches Ok(p) ==> p.start == start && p.wf() && p.start_adj == buscal.adjusted(
                start,
                conv,
            ) && p.end_adj == buscal.adjusted(p.end, conv),
            match roll_conv.next_ymd(start, period) {
                None => r == Err::<Self, SchedulingError>(SchedulingError::DateArithmeticOverflow),
                Some(t) => if ymd_lt(t, start.ymd()) {
                    r == Err::<Self, SchedulingError>(SchedulingError::InvalidPeriod)
                } else {
                    r matches Ok(p) && p.end.ymd() == t
                },
            },
    {
        match roll_conv.next(start, period) {
            None => Err(SchedulingError::DateArithmeticOverflow),
            Some(end) => {
                if end.is_before(&start) {
                    Err(SchedulingError::InvalidPeriod)
                } else {
                    Ok(SchedulePeriod::new_adjust(start, end, buscal, conv))
                }
            },
        }
    }

    /// `dt` lies in `[start, end)`.
    pub fn contains(&self, dt: Date) -> (r: bool)
        ensures
            r == (!dt.before(self.start) && dt.before(self.end)),
    {
        !dt.is_before(&self.start) && dt.is_before(&self.end)
    }

    /// `dt` lies in `[start_adj, end_adj)`.
    pub fn contains_adj(&self, dt: Date) -> (r: bool)
        ensures
            r == (!dt.before(self.start_adj) && dt.before(self.end_adj)),
    {
        !dt.is_before(&self.start_adj) && dt.is_before(&self.end_adj)
    }

    /// Whether the period is longer than a regular one.
    pub fn is_long_stub<'a, C: BusinessCalendar>(
        &self,
        roll_conv: RollConvention,
        period: Period<'a, C>,
    ) -> (r: bool)
        requires
            roll_conv.well_formed(),
        ensures
            r == self.long_stub_spec(roll_conv, period),
    {
        match roll_conv.next(self.start, period) {
            Some(x) => x.is_before(&self.end),
            None => false,
        }
    }

    /// Whether the period is shorter than a regular one.
    pub fn is_short_stub<'a, C: BusinessCalendar>(
        &self,
        roll_conv: RollConvention,
        period: Period<'a, C>,
    ) -> (r: bool)
        requires
            roll_conv.well_formed(),
        ensures
            r == self.short_stub_spec(roll_conv, period),
    {
        match roll_conv.next(self.start, period) {
            Some(x) => self.end.is_before(&x),
            None => true,
        }
    }

    pub fn is_stub<'a, C: BusinessCalendar>(
        &self,
        roll_conv: RollConvention,
        period: Period<'a, C>,
    ) -> (r: bool)
        requires
            roll_conv.well_formed(),
        ensures
            r == !self.regular_spec(roll_conv, period),
    {
        !self.is_regular(roll_conv, period)
    }

    pub fn is_regular<'a, C: BusinessCalendar>(
        &self,
        roll_conv: RollConvention,
        period: Period<'a, C>,
    ) -> (r: bool)
        requires
            roll_conv.well_formed(),
        ensures
            r == self.regular_spec(roll_conv, period),
    {
        let back = match roll_conv.prev(self.end, period) {
            Some(x) => {
                proof {
                    x.lemma_eq(self.start);
                }
                x == self.start
            },
            None => false,
        };
        let fwd = match roll_conv.next(self.start, period) {
            Some(x) => {
                proof {
                    x.lemma_eq(self.end);
                }
                x == self.end
            },
            None => false,
        };
        back && fwd
    }
}

/// A regular period steps exactly: forward from its start to its end, and
/// back from its end to its start.
pub proof fn lemma_regular_round_trip<'a, C: BusinessCalendar>(
    sp: SchedulePeriod,
    rc: RollConvention,
    period: Period<'a, C>,
)
    requires
        sp.regular_spec(rc, period),
    ensures
        rc.next_ymd(sp.start, period) == Some(sp.end.ymd()),
        rc.prev_ymd(sp.end, period) == Some(sp.start.ymd()),
{
}

/// At most one of regular, short stub and long stub holds of a period, and
/// one of them does unless the step forward from the start reaches the end
/// while the step back from the end misses the start.
pub proof fn lemma_classification<'a, C: BusinessCalendar>(sp: SchedulePeriod, rc: RollConvention, period: Period<'a, C>)
    ensures
        !(sp.regular_spec(rc, period) && sp.short_stub_spec(rc, period)),
        !(sp.regular_spec(rc, period) && sp.long_stub_spec(rc, period)),
        !(sp.short_stub_spec(rc, period) && sp.long_stub_spec(rc, period)),
        (rc.next_ymd(sp.start, period) == Some(sp.end.ymd()) ==> rc.prev_ymd(sp.end, period) == Some(
            sp.start.ymd(),
        )) ==> (sp.regular_spec(rc, period) || sp.short_stub_spec(rc, period)
            || sp.long_stub_spec(rc, period)),
{
}

} // verus!
