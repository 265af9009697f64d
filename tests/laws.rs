use scheduling::{
    BusdayConvention, BusinessCalendar, Date, EveryDayCalendar, Daycounts, Period, Roll, RollConvention, Schedule,
    SchedulePeriod, SchedulingError, YearFraction,
};

fn ymd(y: i32, m: u32, d: u32) -> Date {
    Date::from_ymd(y, m, d).unwrap()
}

fn months(n: u32) -> Period<'static, EveryDayCalendar> {
    Period::Months(n)
}

fn plain(start: Date, end: Date) -> SchedulePeriod {
    SchedulePeriod::new(start, end, start, end)
}

fn schedule(
    effective: Date,
    front: Option<Date>,
    back: Option<Date>,
    termination: Date,
    period: Period<'static, EveryDayCalendar>,
) -> Result<Schedule, SchedulingError> {
    Schedule::new(
        effective,
        front,
        back,
        termination,
        &EveryDayCalendar,
        BusdayConvention::Following,
        period,
        false,
        false,
    )
}

#[test]
fn month_step_clamps_to_month_end() {
    let roll = RollConvention::NoRoll;
    assert_eq!(roll.next(ymd(2025, 8, 31), months(6)), Some(ymd(2026, 2, 28)));
    assert_eq!(roll.next(ymd(2027, 8, 31), months(6)), Some(ymd(2028, 2, 29)));
    assert_eq!(roll.next(ymd(2026, 1, 15), months(1)), Some(ymd(2026, 2, 15)));
    assert_eq!(roll.prev(ymd(2026, 3, 31), months(1)), Some(ymd(2026, 2, 28)));
}

#[test]
fn regular_period_round_trips() {
    let roll = RollConvention::Eom;
    let p = plain(ymd(2026, 2, 28), ymd(2026, 8, 31));
    assert!(p.is_regular(roll, months(6)));
    assert_eq!(roll.next(p.start, months(6)), Some(p.end));
    assert_eq!(roll.prev(p.end, months(6)), Some(p.start));
}

#[test]
fn classification_is_exclusive() {
    let roll = RollConvention::Eom;
    let start = ymd(2026, 2, 28);
    for end in [ymd(2026, 6, 30), ymd(2026, 8, 31), ymd(2026, 10, 30)] {
        let p = plain(start, end);
        let flags = [
            p.is_regular(roll, months(6)),
            p.is_short_stub(roll, months(6)),
            p.is_long_stub(roll, months(6)),
        ];
        assert_eq!(flags.iter().filter(|b| **b).count(), 1);
        assert_eq!(p.is_stub(roll, months(6)), !flags[0]);
    }
}

#[test]
fn forward_match_without_backward_match_is_unclassified() {
    let roll = RollConvention::NoRoll;
    let p = plain(ymd(2026, 1, 31), ymd(2026, 2, 28));
    assert!(!p.is_regular(roll, months(1)));
    assert!(!p.is_short_stub(roll, months(1)));
    assert!(!p.is_long_stub(roll, months(1)));
}

#[test]
fn overflowing_regular_end_counts_as_short_stub() {
    let roll = RollConvention::NoRoll;
    let p = plain(ymd(262142, 6, 15), ymd(262142, 12, 31));
    assert!(p.is_short_stub(roll, months(12)));
    assert!(!p.is_long_stub(roll, months(12)));
    assert!(!p.is_regular(roll, months(12)));
}

#[test]
fn schedule_periods_are_contiguous() {
    let sch = schedule(
        ymd(2026, 1, 10),
        Some(ymd(2026, 3, 15)),
        Some(ymd(2027, 1, 1)),
        ymd(2027, 2, 1),
        months(6),
    )
    .unwrap();
    let p = &sch.periods;
    assert_eq!(p.first().unwrap().start, ymd(2026, 1, 10));
    assert_eq!(p.last().unwrap().end, ymd(2027, 2, 1));
    for w in p.windows(2) {
        assert_eq!(w[0].end, w[1].start);
    }
    let expected = vec![
        plain(ymd(2026, 1, 10), ymd(2026, 3, 15)),
        plain(ymd(2026, 3, 15), ymd(2026, 9, 15)),
        plain(ymd(2026, 9, 15), ymd(2027, 1, 1)),
        plain(ymd(2027, 1, 1), ymd(2027, 2, 1)),
    ];
    assert_eq!(sch, Schedule { periods: expected });
}

#[test]
fn last_regular_period_is_cut_at_termination() {
    let sch = schedule(ymd(2026, 2, 15), None, None, ymd(2027, 3, 1), months(6)).unwrap();
    let expected = vec![
        plain(ymd(2026, 2, 15), ymd(2026, 8, 15)),
        plain(ymd(2026, 8, 15), ymd(2027, 2, 15)),
        plain(ymd(2027, 2, 15), ymd(2027, 3, 1)),
    ];
    assert_eq!(sch, Schedule { periods: expected });
}

#[test]
fn stubs_meeting_leave_no_regular_period() {
    let d = ymd(2026, 6, 15);
    let sch = schedule(ymd(2026, 1, 15), Some(d), Some(d), ymd(2026, 9, 15), months(3)).unwrap();
    let expected = vec![plain(ymd(2026, 1, 15), d), plain(d, ymd(2026, 9, 15))];
    assert_eq!(sch, Schedule { periods: expected });
}

#[test]
fn day_steps_do_not_roll() {
    let sch = schedule(ymd(2026, 1, 30), None, None, ymd(2026, 2, 19), Period::Days(10)).unwrap();
    let expected = vec![
        plain(ymd(2026, 1, 30), ymd(2026, 2, 9)),
        plain(ymd(2026, 2, 9), ymd(2026, 2, 19)),
    ];
    assert_eq!(sch, Schedule { periods: expected });
}

#[test]
fn end_of_month_rolling_schedule() {
    let sch = Schedule::new(
        ymd(2026, 2, 28),
        None,
        None,
        ymd(2027, 2, 28),
        &EveryDayCalendar,
        BusdayConvention::Following,
        months(6),
        false,
        true,
    )
    .unwrap();
    let expected = vec![
        plain(ymd(2026, 2, 28), ymd(2026, 8, 31)),
        plain(ymd(2026, 8, 31), ymd(2027, 2, 28)),
    ];
    assert_eq!(sch, Schedule { periods: expected });
}

#[test]
fn reversed_dates_are_rejected() {
    let r = schedule(ymd(2027, 1, 1), None, None, ymd(2026, 1, 1), months(6));
    assert_eq!(r, Err(SchedulingError::InvalidDateRange));
    let r = schedule(ymd(2026, 1, 1), Some(ymd(2025, 6, 1)), None, ymd(2027, 1, 1), months(6));
    assert_eq!(r, Err(SchedulingError::InvalidDateRange));
    let r = schedule(
        ymd(2026, 1, 1),
        Some(ymd(2026, 9, 1)),
        Some(ymd(2026, 6, 1)),
        ymd(2027, 1, 1),
        months(6),
    );
    assert_eq!(r, Err(SchedulingError::InvalidDateRange));
}

#[test]
fn zero_period_is_rejected() {
    let r = schedule(ymd(2026, 1, 1), None, None, ymd(2027, 1, 1), months(0));
    assert_eq!(r, Err(SchedulingError::InvalidPeriod));
}

#[test]
fn step_that_does_not_advance_is_rejected() {
    let r = schedule(ymd(2026, 1, 20), None, None, ymd(2026, 3, 1), Period::Weeks(1));
    assert_eq!(r, Err(SchedulingError::InvalidPeriod));
}

#[test]
fn step_past_the_last_date_overflows() {
    let r = schedule(ymd(262142, 1, 15), None, None, ymd(262142, 12, 31), months(12));
    assert_eq!(r, Err(SchedulingError::DateArithmeticOverflow));
}

#[test]
fn relative_period_errors() {
    let r = SchedulePeriod::new_relative(
        ymd(2026, 1, 20),
        RollConvention::DayOfMonth(1),
        Period::Weeks(1),
        &EveryDayCalendar,
        BusdayConvention::Following,
    );
    assert_eq!(r, Err(SchedulingError::InvalidPeriod));
    let r = SchedulePeriod::new_relative(
        ymd(262142, 6, 1),
        RollConvention::NoRoll,
        Period::Years(1),
        &EveryDayCalendar,
        BusdayConvention::Following,
    );
    assert_eq!(r, Err(SchedulingError::DateArithmeticOverflow));
}

#[test]
fn containment_is_half_open() {
    let p = SchedulePeriod::new(ymd(2026, 2, 28), ymd(2026, 8, 31), ymd(2026, 2, 27), ymd(2026, 8, 31));
    assert!(p.contains(ymd(2026, 2, 28)));
    assert!(!p.contains(ymd(2026, 2, 27)));
    assert!(!p.contains(ymd(2026, 8, 31)));
    assert!(p.contains_adj(ymd(2026, 2, 27)));
    assert!(!p.contains_adj(ymd(2026, 8, 31)));
}

#[test]
fn act_act_isda_splits_at_new_year() {
    let dc: Daycounts<EveryDayCalendar> = Daycounts::ActActIsda;
    let f = dc.year_fraction(ymd(2027, 11, 1), ymd(2028, 2, 1));
    assert_eq!(f, YearFraction { days: 61, basis: 365, rest_days: 31, rest_basis: 366 });
    let total = f.days as f64 / f.basis as f64 + f.rest_days as f64 / f.rest_basis as f64;
    assert_eq!(total, 61.0 / 365.0 + 31.0 / 366.0);
    let within = dc.year_fraction(ymd(2028, 1, 1), ymd(2028, 7, 1));
    assert_eq!(within, YearFraction { days: 182, basis: 366, rest_days: 0, rest_basis: 366 });
}

#[test]
fn fixed_denominators() {
    let a360: Daycounts<EveryDayCalendar> = Daycounts::Act360;
    let a365f: Daycounts<EveryDayCalendar> = Daycounts::Act365F;
    let f = a360.year_fraction(ymd(2026, 1, 1), ymd(2026, 7, 1));
    assert_eq!(f, YearFraction { days: 181, basis: 360, rest_days: 0, rest_basis: 360 });
    let f = a365f.year_fraction(ymd(2027, 11, 1), ymd(2028, 3, 1));
    assert_eq!(f, YearFraction { days: 121, basis: 365, rest_days: 0, rest_basis: 365 });
    let back = a360.year_fraction(ymd(2026, 7, 1), ymd(2026, 1, 1));
    assert_eq!(back.days, -181);
}

#[test]
fn act365_counts_a_leap_day_inside() {
    let dc: Daycounts<EveryDayCalendar> = Daycounts::Act365;
    let f = dc.year_fraction(ymd(2027, 11, 1), ymd(2028, 3, 1));
    assert_eq!(f, YearFraction { days: 121, basis: 366, rest_days: 0, rest_basis: 366 });
    let f = dc.year_fraction(ymd(2026, 1, 1), ymd(2026, 12, 31));
    assert_eq!(f.basis, 365);
    let f = dc.year_fraction(ymd(2028, 2, 29), ymd(2028, 12, 31));
    assert_eq!(f.basis, 365);
    let f = dc.year_fraction(ymd(1896, 3, 1), ymd(1904, 3, 1));
    assert_eq!(f.basis, 366);
    let f = dc.year_fraction(ymd(1896, 3, 1), ymd(1904, 2, 29));
    assert_eq!(f.basis, 365);
}

#[test]
fn business_252_uses_the_calendar_count() {
    let dc = Daycounts::Bus252(&EveryDayCalendar);
    let f = dc.year_fraction(ymd(2026, 1, 1), ymd(2026, 1, 31));
    assert_eq!(f, YearFraction { days: 30, basis: 252, rest_days: 0, rest_basis: 252 });
}

#[test]
fn date_arithmetic() {
    assert_eq!(ymd(2024, 2, 28).add_days(1), Some(ymd(2024, 2, 29)));
    assert_eq!(ymd(2024, 3, 1).sub_days(1), Some(ymd(2024, 2, 29)));
    assert_eq!(ymd(2026, 1, 1).days_until(&ymd(2026, 6, 30)), 180);
    assert_eq!(ymd(2026, 6, 30).days_until(&ymd(2026, 1, 1)), -180);
    assert_eq!(ymd(2026, 1, 31).add_months(1), Some(ymd(2026, 2, 28)));
    assert_eq!(ymd(2026, 3, 31).sub_months(1), Some(ymd(2026, 2, 28)));
    assert_eq!(ymd(262142, 12, 31).add_days(1), None);
    assert_eq!(ymd(-262143, 1, 1).sub_days(1), None);
    assert_eq!(ymd(262142, 12, 1).add_months(1), None);
    assert_eq!(Date::from_ymd(2026, 2, 29), None);
    assert_eq!(Date::from_ymd(2028, 2, 29), Some(ymd(2028, 2, 29)));
    assert_eq!(Date::from_ymd(262143, 1, 1), None);
    assert_eq!(ymd(2026, 4, 10).with_day(30), ymd(2026, 4, 30));
    assert_eq!(ymd(2028, 2, 1).num_days_in_month(), 29);
    assert!(ymd(2000, 1, 1).is_leap_year());
    assert!(!ymd(1900, 1, 1).is_leap_year());
}

#[test]
fn period_steps() {
    assert_eq!(Period::<EveryDayCalendar>::Weeks(2).next(ymd(2026, 12, 25)), Some(ymd(2027, 1, 8)));
    assert_eq!(Period::<EveryDayCalendar>::Days(3).prev(ymd(2026, 3, 1)), Some(ymd(2026, 2, 26)));
    assert_eq!(Period::<EveryDayCalendar>::Years(1).next(ymd(2028, 2, 29)), Some(ymd(2029, 2, 28)));
    assert_eq!(Period::<EveryDayCalendar>::Years(2).prev(ymd(2028, 2, 29)), Some(ymd(2026, 2, 28)));
    assert_eq!(Period::<EveryDayCalendar>::Years(400_000_000).next(ymd(2026, 1, 1)), None);
    assert_eq!(Period::BusDays(5, &EveryDayCalendar).next(ymd(2026, 1, 1)), Some(ymd(2026, 1, 6)));
    assert!(Period::<EveryDayCalendar>::Days(1).is_days());
    assert!(!Period::<EveryDayCalendar>::Weeks(1).is_days());
    assert!(Period::<EveryDayCalendar>::Months(0).is_zero());
}

#[test]
fn adjuster_applies_the_calendar() {
    let adj = scheduling::Adjuster::new(&EveryDayCalendar, BusdayConvention::ModifiedFollowing);
    assert_eq!(adj.adjust(ymd(2026, 2, 28)), ymd(2026, 2, 28));
}

#[test]
fn every_day_calendar_answers() {
    let cal = EveryDayCalendar;
    let d = ymd(2026, 2, 28);
    assert_eq!(cal.adjust(d, BusdayConvention::ModifiedFollowing), d);
    assert_eq!(cal.add_busdays(d, 1), Some(ymd(2026, 3, 1)));
    assert_eq!(cal.sub_busdays(d, 28), Some(ymd(2026, 1, 31)));
    assert_eq!(cal.busday_count(ymd(2026, 1, 1), ymd(2026, 6, 30)), 180);
    assert_eq!(cal.add_busdays(ymd(262142, 12, 31), 1), None);
}

#[test]
fn business_day_steps_that_roll_back_are_rejected() {
    let r = schedule(
        ymd(2026, 1, 5),
        None,
        None,
        ymd(2026, 3, 1),
        Period::BusDays(10, &EveryDayCalendar),
    );
    assert_eq!(r, Err(SchedulingError::InvalidPeriod));
}
