use crate::calendar::{BusdayConvention, BusinessCalendar};
use crate::date::{
    lemma_day_number_increasing, lemma_shift_months_advances, lemma_shift_months_monotone,
    valid_ymd, ymd_lt, Date, MIN_YEAR,
};
use crate::period::Period;
use crate::roll_conv::{Roll, RollConvention};
use crate::schedule_period::SchedulePeriod;
use crate::SchedulingError;
use vstd::prelude::*;

verus! {

/// The accrual periods of an instrument, in order.
#[derive(Clone, Debug, PartialEq)]
pub struct Schedule {
    pub periods: Vec<SchedulePeriod>,
}

/// Where the regular periods start: at the end of the front stub if there is one.
pub open spec fn body_start(effective: Date, front_stub: Option<Date>) -> Date {
    match front_stub {
        Some(f) => f,
        None => effective,
    }
}

/// Where the regular periods stop: at the start of the back stub if there is one.
pub open spec fn body_end(back_stub: Option<Date>, termination: Date) -> Date {
    match back_stub {
        Some(b) => b,
        None => termination,
    }
}

/// The boundary dates rise: effective before termination, each stub of
/// positive length, and the regular part not reversed.
pub open spec fn boundaries_ordered(
    effective: Date,
    front_stub: Option<Date>,
    back_stub: Option<Date>,
    termination: Date,
) -> bool {
    &&& effective.before(termination)
    &&& front_stub matches Some(f) ==> effective.before(f)
    &&& back_stub matches Some(b) ==> b.before(termination)
    &&& !body_end(back_stub, termination).before(body_start(effective, front_stub))
}

/// The roll rule of the regular periods: none for calendar-day steps, else the
/// start or end of month when asked for, else the day of month of `start`.
pub open spec fn schedule_roll<'a, C: BusinessCalendar>(
    period: Period<'a, C>,
    bom: bool,
    eom: bool,
    start: Date,
) -> RollConvention {
    if period is Days {
        RollConvention::NoRoll
    } else if bom {
        RollConvention::Bom
    } else if eom {
        RollConvention::Eom
    } else {
        RollConvention::DayOfMonth(start.d() as u32)
    }
}

/// Each period ends where the next one starts.
pub open spec fn contiguous(s: Seq<SchedulePeriod>) -> bool {
    forall|i: int| 0 <= i < s.len() - 1 ==> #[trigger] s[i].end == s[i + 1].start
}

/// Each period starts strictly before it ends.
pub open spec fn all_nonempty(s: Seq<SchedulePeriod>) -> bool {
    forall|i: int| 0 <= i < s.len() ==> (#[trigger] s[i]).start.before(s[i].end)
}

/// Each period's adjusted dates are the calendar's adjustment of its dates.
pub open spec fn adjusted_on<C: BusinessCalendar>(
    s: Seq<SchedulePeriod>,
    cal: &C,
    conv: BusdayConvention,
) -> bool {
    forall|i: int|
        0 <= i < s.len() ==> (#[trigger] s[i]).start_adj == cal.adjusted(s[i].start, conv)
            && s[i].end_adj == cal.adjusted(s[i].end, conv)
}

/// Some date of the regular part `[start, end)` has no date one step later.
pub open spec fn step_overflows<'a, C: BusinessCalendar>(
    period: Period<'a, C>,
    start: Date,
    end: Date,
) -> bool {
    exists|d: Date| !d.before(start) && d.before(end) && !#[trigger] period.lands(d, true)
}

/// Some date of the regular part `[start, end)` has a rolled step that does
/// not move forward.
pub open spec fn step_stalls<'a, C: BusinessCalendar>(
    rc: RollConvention,
    period: Period<'a, C>,
    start: Date,
    end: Date,
) -> bool {
    exists|d: Date|
        !d.before(start) && d.before(end) && #[trigger] period.lands(d, true) && !ymd_lt(
            d.ymd(),
            rc.roll_ymd(period.shifted(d, true)),
        )
}

/// A regular-part period: it ends one rolled step after its start, or at
/// `stop` when that step would pass it.
pub open spec fn body_step<'a, C: BusinessCalendar>(
    rc: RollConvention,
    period: Period<'a, C>,
    sp: SchedulePeriod,
    stop: Date,
) -> bool {
    rc.next_ymd(sp.start, period) matches Some(t) && (t == sp.end.ymd() || (sp.end == stop
        && ymd_lt(sp.end.ymd(), t)))
}

impl Schedule {
    /// The schedule from `effective` to `termination`: an optional front stub
    /// ending at `front_stub`, regular periods of `period` rolled by the chosen
    /// rule (the last one cut at the regular part's end), and an optional back
    /// stub starting at `back_stub`. Each period is adjusted on `pmt_cal`
    /// under `busday_conv`.
    #[verifier::rlimit(50)]
    pub fn new<'a, C: BusinessCalendar>(
        effective: Date,
        front_stub: Option<Date>,
        back_stub: Option<Date>,
        termination: Date,
        pmt_cal: &C,
        busday_conv: BusdayConvention,
        period: Period<'a, C>,
        bom: bool,
        eom: bool,
    ) -> (r: Result<Schedule, SchedulingError>)
        ensures
            !boundaries_ordered(effective, front_stub, back_stub, termination) ==> r == Err::<
                Schedule,
                SchedulingError,
            >(SchedulingError::InvalidDateRange),
            boundaries_ordered(effective, front_stub, back_stub, termination) && period.amount()
                == 0 ==> r == Err::<Schedule, SchedulingError>(SchedulingError::InvalidPeriod),
            (period is Months || period is Years || period is Days) && boundaries_ordered(
                effective,
                front_stub,
                back_stub,
                termination,
            ) && period.amount() > 0 && period.lands(body_end(back_stub, termination), true)
                ==> r is Ok,
            r is Err ==> r == Err::<Schedule, SchedulingError>(SchedulingError::InvalidDateRange)
                || r == Err::<Schedule, SchedulingError>(SchedulingError::InvalidPeriod) || r
                == Err::<Schedule, SchedulingError>(SchedulingError::DateArithmeticOverflow),
            r == Err::<Schedule, SchedulingError>(SchedulingError::DateArithmeticOverflow)
                ==> boundaries_ordered(effective, front_stub, back_stub, termination) && step_overflows(
                period,
                body_start(effective, front_stub),
                body_end(back_stub, termination),
            ),
            r == Err::<Schedule, SchedulingError>(SchedulingError::InvalidPeriod) ==> boundaries_ordered(
                effective,
                front_stub,
                back_stub,
                termination,
            ) && (period.amount() == 0 || step_stalls(
                schedule_roll(period, bom, eom, body_start(effective, front_stub)),
                period,
                body_start(effective, front_stub),
                body_end(back_stub, termination),
            )),
            r matches Ok(s) ==> {
                let p = s.periods@;
                let k0: int = if front_stub is Some { 1 } else { 0 };
                let k1: int = if back_stub is Some { p.len() - 1 } else { p.len() as int };
                let rc = schedule_roll(period, bom, eom, body_start(effective, front_stub));
                &&& boundaries_ordered(effective, front_stub, back_stub, termination)
                &&& period.amount() > 0
                &&& p.len() > 0
                &&& p[0].start == effective
                &&& p.last().end == termination
                &&& contiguous(p)
                &&& all_nonempty(p)
                &&& adjusted_on(p, pmt_cal, busday_conv)
                &&& front_stub matches Some(f) ==> p[0].end == f
                &&& back_stub matches Some(b) ==> p.last().start == b
                &&& k0 <= k1
                &&& forall|i: int|
                    k0 <= i < k1 ==> body_step(
                        rc,
                        period,
                        #[trigger] p[i],
                        body_end(back_stub, termination),
                    )
            },
    {
        let front_ok = match front_stub {
            Some(f) => effective.is_before(&f),
            None => true,
        };
        let back_ok = match back_stub {
            Some(b) => b.is_before(&termination),
            None => true,
        };
        let start = match front_stub {
            Some(f) => f,
            None => effective,
        };
        let end = match back_stub {
            Some(b) => b,
            None => termination,
        };
        if !effective.is_before(&termination) || !front_ok || !back_ok || end.is_before(&start) {
            return Err(SchedulingError::InvalidDateRange);
        }
        if period.is_zero() {
            return Err(SchedulingError::InvalidPeriod);
        }
        let mut periods: Vec<SchedulePeriod> = Vec::new();

        // front stub
        if let Some(f) = front_stub {
            periods.push(SchedulePeriod::new_adjust(effective, f, pmt_cal, busday_conv));
        }
        let roll_conv = if period.is_days() {
            RollConvention::NoRoll
        } else if bom {
            RollConvention::Bom
        } else if eom {
            RollConvention::Eom
        } else {
            RollConvention::DayOfMonth(start.day())
        };
        let ghost k0: int = if front_stub is Some { 1 } else { 0 };
        let ghost months = (period is Months || period is Years) && period.lands(end, true);
        let ghost days = period is Days && period.lands(end, true);

        let mut tmp = start;
        while tmp.is_before(&end)
            invariant
                roll_conv == schedule_roll(period, bom, eom, start),
                roll_conv.well_formed(),
                start == body_start(effective, front_stub),
                end == body_end(back_stub, termination),
                boundaries_ordered(effective, front_stub, back_stub, termination),
                tmp.rank() <= end.rank(),
                !tmp.before(start),
                period.amount() > 0,
                valid_ymd(end.y(), end.m(), end.d()),
                months == ((period is Months || period is Years) && period.lands(end, true)),
                days == (period is Days && period.lands(end, true)),
                periods@.len() >= k0,
                k0 == (if front_stub is Some { 1int } else { 0int }),
                periods@.len() == 0 ==> tmp == effective,
                periods@.len() > 0 ==> periods@.last().end == tmp,
                periods@.len() > 0 ==> periods@[0].start == effective,
                front_stub matches Some(f) ==> periods@[0].end == f,
                contiguous(periods@),
                all_nonempty(periods@),
                adjusted_on(periods@, pmt_cal, busday_conv),
                forall|i: int|
                    k0 <= i < periods@.len() ==> body_step(roll_conv, period, #[trigger] periods@[i], end),
            decreases end.rank() - tmp.rank(),
        {
            proof {
                if months {
                    let k = if period is Months { period.amount() } else { 12 * period.amount() };
                    lemma_shift_months_monotone(tmp.ymd(), end.ymd(), k);
                    lemma_shift_months_advances(tmp.y(), tmp.m(), tmp.d(), k);
                }
                if days {
                    lemma_day_number_increasing(tmp.ymd(), end.ymd());
                    if ymd_lt((MIN_YEAR as int, 1, 1), tmp.ymd()) {
                        lemma_day_number_increasing((MIN_YEAR as int, 1, 1), tmp.ymd());
                    }
                }
            }
            // calendar-day steps are not rolled
            let stepped = if period.is_days() {
                period.next(tmp)
            } else {
                roll_conv.next(tmp, period)
            };
            let next = match stepped {
                Some(x) => x,
                None => {
                    assert(!tmp.before(start) && tmp.before(end) && !period.lands(tmp, true));
                    return Err(SchedulingError::DateArithmeticOverflow);
                },
            };
            if !tmp.is_before(&next) {
                proof {
                    if days && ymd_lt(next.ymd(), tmp.ymd()) {
                        lemma_day_number_increasing(next.ymd(), tmp.ymd());
                    }
                }
                assert(!tmp.before(start) && tmp.before(end) && period.lands(tmp, true));
                return Err(SchedulingError::InvalidPeriod);
            }
            let stop = if next.is_before(&end) {
                next
            } else {
                end
            };
            let sp = SchedulePeriod::new_adjust(tmp, stop, pmt_cal, busday_conv);
            let ghost old_periods = periods@;
            periods.push(sp);
            proof {
                assert(periods@[periods@.len() - 1] == sp);
                assert forall|i: int| 0 <= i < periods@.len() - 1 implies #[trigger] periods@[i].end
                    == periods@[i + 1].start by {
                    if i < periods@.len() - 2 {
                        assert(periods@[i] == old_periods[i]);
                        assert(periods@[i + 1] == old_periods[i + 1]);
                    }
                }
                assert forall|i: int| 0 <= i < periods@.len() implies (#[trigger] periods@[i]).start.before(
                    periods@[i].end) by {
                    if i < periods@.len() - 1 {
                        assert(periods@[i] == old_periods[i]);
                    }
                }
                assert forall|i: int| 0 <= i < periods@.len() implies (#[trigger] periods@[i]).start_adj
                    == pmt_cal.adjusted(periods@[i].start, busday_conv) && periods@[i].end_adj
                    == pmt_cal.adjusted(periods@[i].end, busday_conv) by {
                    if i < periods@.len() - 1 {
                        assert(periods@[i] == old_periods[i]);
                    }
                }
                {
                    assert forall|i: int| k0 <= i < periods@.len() implies body_step(
                        roll_conv,
                        period,
                        #[trigger] periods@[i],
                        end,
                    ) by {
                        if i < periods@.len() - 1 {
                            assert(periods@[i] == old_periods[i]);
                        }
                    }
                }
            }
            tmp = stop;
        }

        // back stub: the regular part has stopped at its start
        if let Some(b) = back_stub {
            let ghost old_periods = periods@;
            periods.push(SchedulePeriod::new_adjust(b, termination, pmt_cal, busday_conv));
            proof {
                assert forall|i: int| 0 <= i < periods@.len() - 1 implies #[trigger] periods@[i].end
                    == periods@[i + 1].start by {
                    if i < periods@.len() - 2 {
                        assert(periods@[i] == old_periods[i]);
                        assert(periods@[i + 1] == old_periods[i + 1]);
                    }
                }
                assert forall|i: int| 0 <= i < periods@.len() implies (#[trigger] periods@[i]).start.before(
                    periods@[i].end) by {
                    if i < periods@.len() - 1 {
                        assert(periods@[i] == old_periods[i]);
                    }
                }
                assert forall|i: int| 0 <= i < periods@.len() implies (#[trigger] periods@[i]).start_adj
                    == pmt_cal.adjusted(periods@[i].start, busday_conv) && periods@[i].end_adj
                    == pmt_cal.adjusted(periods@[i].end, busday_conv) by {
                    if i < periods@.len() - 1 {
                        assert(periods@[i] == old_periods[i]);
                    }
                }
                assert forall|i: int| k0 <= i < periods@.len() - 1 implies #[trigger] periods@[i]
                    == old_periods[i] by {
                }
            }
        }
        Ok(Schedule { periods })
    }
}

} // verus!
