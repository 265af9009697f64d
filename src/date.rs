use chrono::Datelike;
use vstd::arithmetic::div_mod::{lemma_fundamental_div_mod, lemma_fundamental_div_mod_converse};
use vstd::prelude::*;

verus! {

/// Earliest year that a date of this library can carry.
pub const MIN_YEAR: i32 = -262143;

/// Latest year that a date of this library can carry.
pub const MAX_YEAR: i32 = 262142;

pub open spec fn is_leap_year(y: int) -> bool {
    (y % 4 == 0 && y % 100 != 0) || y % 400 == 0
}

pub open spec fn year_len(y: int) -> int {
    if is_leap_year(y) { 366 } else { 365 }
}

pub open spec fn month_len(y: int, m: int) -> int {
    if m == 2 {
        if is_leap_year(y) { 29 } else { 28 }
    } else if m == 4 || m == 6 || m == 9 || m == 11 {
        30
    } else {
        31
    }
}

pub open spec fn valid_ymd(y: int, m: int, d: int) -> bool {
    &&& MIN_YEAR <= y <= MAX_YEAR
    &&& 1 <= m <= 12
    &&& 1 <= d <= month_len(y, m)
}

/// Days from 1970-01-01 to the proleptic Gregorian date `y-m-d`.
pub open spec fn day_number(y: int, m: int, d: int) -> int {
    let yy = if m <= 2 { y - 1 } else { y };
    let era = yy / 400;
    let yoe = yy - era * 400;
    let mp = if m > 2 { m - 3 } else { m + 9 };
    let doy = (153 * mp + 2) / 5 + d - 1;
    let doe = yoe * 365 + yoe / 4 - yoe / 100 + doy;
    era * 146097 + doe - 719468
}

/// Days from the start of the proleptic calendar to 1 March of year `yy`,
/// shifted by a constant.
pub open spec fn days_before_march(yy: int) -> int {
    let era = yy / 400;
    let yoe = yy - era * 400;
    era * 146097 + yoe * 365 + yoe / 4 - yoe / 100
}

proof fn lemma_step_div(x: int, d: int)
    requires
        d > 1,
    ensures
        (x + 1) / d == x / d + (if (x + 1) % d == 0 { 1int } else { 0int }),
{
    lemma_fundamental_div_mod(x, d);
    let q = x / d;
    let r = x % d;
    assert(x == q * d + r) by (nonlinear_arith)
        requires x == d * q + r;
    if r == d - 1 {
        assert(x + 1 == (q + 1) * d + 0) by (nonlinear_arith)
            requires x == q * d + r, r == d - 1;
        lemma_fundamental_div_mod_converse(x + 1, d, q + 1, 0);
    } else {
        lemma_fundamental_div_mod_converse(x + 1, d, q, r + 1);
    }
}

/// The March-based year that begins in `yy` has 365 days, one more when
/// the following February is a leap one.
proof fn lemma_march_year_len(yy: int)
    ensures
        days_before_march(yy + 1) - days_before_march(yy) == 365 + (if is_leap_year(yy + 1) {
            1int
        } else {
            0int
        }),
{
    let era = yy / 400;
    let yoe = yy - era * 400;
    lemma_fundamental_div_mod(yy, 400);
    assert(0 <= yoe < 400);
    if yoe == 399 {
        lemma_fundamental_div_mod_converse(yy + 1, 400, era + 1, 0);
        lemma_fundamental_div_mod_converse(yy + 1, 4, era * 100 + 100, 0);
        assert(yoe / 4 == 99);
        assert(yoe / 100 == 3);
    } else {
        lemma_fundamental_div_mod_converse(yy + 1, 400, era, yoe + 1);
        lemma_step_div(yoe, 4);
        lemma_step_div(yoe, 100);
        lemma_fundamental_div_mod((yoe + 1), 4);
        lemma_fundamental_div_mod((yoe + 1), 100);
        lemma_fundamental_div_mod_converse(yy + 1, 4, era * 100 + (yoe + 1) / 4, (yoe + 1) % 4);
        lemma_fundamental_div_mod_converse(yy + 1, 100, era * 4 + (yoe + 1) / 100, (yoe + 1) % 100);
    }
}

proof fn lemma_march_increasing(a: int, b: int)
    requires
        a < b,
    ensures
        days_before_march(a + 1) <= days_before_march(b),
        days_before_march(a) + 365 <= days_before_march(a + 1),
    decreases b - a,
{
    lemma_march_year_len(a);
    if b > a + 1 {
        lemma_march_increasing(a, b - 1);
        lemma_march_year_len(b - 1);
    }
}

/// Days of a March-based year before month index `mp` (0 is March).
proof fn lemma_month_offsets(mp: int)
    requires
        0 <= mp <= 11,
    ensures
        mp <= 10 ==> (153 * (mp + 1) + 2) / 5 - (153 * mp + 2) / 5 == month_len(
            0,
            if mp < 10 { mp + 3 } else { 1 },
        ),
        (153 * mp + 2) / 5 <= 337,
        mp == 11 ==> (153 * mp + 2) / 5 == 337,
        0 <= (153 * mp + 2) / 5,
{
    if mp == 0 {
        assert((153 * 0 + 2) / 5 == 0 && (153 * 1 + 2) / 5 == 31);
    } else if mp == 1 {
        assert((153 * 1 + 2) / 5 == 31 && (153 * 2 + 2) / 5 == 61);
    } else if mp == 2 {
        assert((153 * 2 + 2) / 5 == 61 && (153 * 3 + 2) / 5 == 92);
    } else if mp == 3 {
        assert((153 * 3 + 2) / 5 == 92 && (153 * 4 + 2) / 5 == 122);
    } else if mp == 4 {
        assert((153 * 4 + 2) / 5 == 122 && (153 * 5 + 2) / 5 == 153);
    } else if mp == 5 {
        assert((153 * 5 + 2) / 5 == 153 && (153 * 6 + 2) / 5 == 184);
    } else if mp == 6 {
        assert((153 * 6 + 2) / 5 == 184 && (153 * 7 + 2) / 5 == 214);
    } else if mp == 7 {
        assert((153 * 7 + 2) / 5 == 214 && (153 * 8 + 2) / 5 == 245);
    } else if mp == 8 {
        assert((153 * 8 + 2) / 5 == 245 && (153 * 9 + 2) / 5 == 275);
    } else if mp == 9 {
        assert((153 * 9 + 2) / 5 == 275 && (153 * 10 + 2) / 5 == 306);
    } else if mp == 10 {
        assert((153 * 10 + 2) / 5 == 306 && (153 * 11 + 2) / 5 == 337);
    } else {
        assert((153 * 11 + 2) / 5 == 337);
    }
}

/// Offsets of March-based months grow.
proof fn lemma_month_offsets_increasing(p: int, q: int)
    requires
        0 <= p < q <= 11,
    ensures
        (153 * p + 2) / 5 + month_len(0, if p < 10 { p + 3 } else { 1 }) <= (153 * q + 2) / 5,
    decreases q - p,
{
    lemma_month_offsets(p);
    if q > p + 1 {
        lemma_month_offsets_increasing(p + 1, q);
        lemma_month_offsets(p + 1);
    }
}

/// Later valid dates have larger day numbers.
pub proof fn lemma_day_number_increasing(a: (int, int, int), b: (int, int, int))
    requires
        valid_ymd(a.0, a.1, a.2),
        valid_ymd(b.0, b.1, b.2),
        ymd_lt(a, b),
    ensures
        day_number(a.0, a.1, a.2) < day_number(b.0, b.1, b.2),
{
    let yya = if a.1 <= 2 { a.0 - 1 } else { a.0 };
    let yyb = if b.1 <= 2 { b.0 - 1 } else { b.0 };
    let mpa = if a.1 > 2 { a.1 - 3 } else { a.1 + 9 };
    let mpb = if b.1 > 2 { b.1 - 3 } else { b.1 + 9 };
    assert(yya * 12 + mpa == a.0 * 12 + a.1 - 3);
    assert(yyb * 12 + mpb == b.0 * 12 + b.1 - 3);
    lemma_month_offsets(mpa);
    lemma_month_offsets(mpb);
    if yya == yyb {
        if mpa < mpb {
            lemma_month_offsets_increasing(mpa, mpb);
        }
    } else {
        assert(yya < yyb);
        lemma_march_increasing(yya, yyb);
        lemma_march_year_len(yya);
        assert(mpa == 11 ==> a.0 == yya + 1 && a.1 == 2);
    }
}

/// Year, month and day of the date `z` days after 1970-01-01.
pub open spec fn civil_from_days(z: int) -> (int, int, int) {
    let zz = z + 719468;
    let era = zz / 146097;
    let doe = zz - era * 146097;
    let yoe = (doe - doe / 1460 + doe / 36524 - doe / 146096) / 365;
    let doy = doe - (365 * yoe + yoe / 4 - yoe / 100);
    let mp = (5 * doy + 2) / 153;
    let d = doy - (153 * mp + 2) / 5 + 1;
    let m = if mp < 10 { mp + 3 } else { mp - 9 };
    let y = yoe + era * 400;
    (if m <= 2 { y + 1 } else { y }, m, d)
}

/// Year and month `k` months after `y-m` (`k` may be negative), with the day
/// clamped to the length of the target month.
pub open spec fn shift_months(y: int, m: int, d: int, k: int) -> (int, int, int) {
    let t = y * 12 + (m - 1) + k;
    let ny = t / 12;
    let nm = t % 12 + 1;
    let len = month_len(ny, nm);
    (ny, nm, if d > len { len } else { d })
}

/// Strict chronological order on (year, month, day) triples.
pub open spec fn ymd_lt(a: (int, int, int), b: (int, int, int)) -> bool {
    a.0 < b.0 || (a.0 == b.0 && (a.1 < b.1 || (a.1 == b.1 && a.2 < b.2)))
}

/// Shifting by the same number of months keeps the order of the years.
pub proof fn lemma_shift_months_monotone(a: (int, int, int), b: (int, int, int), k: int)
    requires
        1 <= a.1 <= 12,
        1 <= b.1 <= 12,
        !ymd_lt(b, a),
    ensures
        shift_months(a.0, a.1, a.2, k).0 <= shift_months(b.0, b.1, b.2, k).0,
{
    let ta = a.0 * 12 + (a.1 - 1) + k;
    let tb = b.0 * 12 + (b.1 - 1) + k;
    assert(ta <= tb);
    vstd::arithmetic::div_mod::lemma_div_is_ordered(ta, tb, 12);
}

/// A shift by a positive number of months lands in a later month.
pub proof fn lemma_shift_months_advances(y: int, m: int, d: int, k: int)
    requires
        1 <= m <= 12,
        k >= 1,
    ensures
        ({
            let s = shift_months(y, m, d, k);
            s.0 > y || (s.0 == y && s.1 > m)
        }),
        shift_months(y, m, d, k).0 >= y,
{
    let t = y * 12 + (m - 1) + k;
    vstd::arithmetic::div_mod::lemma_fundamental_div_mod(t, 12);
    assert(0 <= t % 12 < 12);
}

/// Day numbers of the dates in range.
pub open spec fn num_in_range(z: int) -> bool {
    day_number(MIN_YEAR as int, 1, 1) <= z <= day_number(MAX_YEAR as int, 12, 31)
}

/// When `ok`, the date with components `t`; else none.
pub open spec fn date_if(ok: bool, t: (int, int, int)) -> Option<Date> {
    if ok && exists|x: Date| x.ymd() == t {
        Some(choose|x: Date| x.ymd() == t)
    } else {
        None
    }
}

/// A result that is `Some` exactly when `ok`, and then carries a date with
/// components `t`, is `date_if(ok, t)`.
pub proof fn lemma_date_if(ok: bool, t: (int, int, int), r: Option<Date>)
    requires
        r is Some <==> ok,
        r matches Some(x) ==> x.ymd() == t,
    ensures
        r == date_if(ok, t),
{
    if let Some(x) = r {
        let c = choose|c: Date| c.ymd() == t;
        x.lemma_eq(c);
    }
}

/// A calendar date of the proleptic Gregorian calendar.
#[derive(Clone, Copy, Debug, PartialEq, Eq, Structural)]
pub struct Date {
    year: i32,
    month: u32,
    day: u32,
}

impl Date {
    #[verifier::type_invariant]
    closed spec fn inv(self) -> bool {
        valid_ymd(self.year as int, self.month as int, self.day as int)
    }

    pub closed spec fn y(self) -> int {
        self.year as int
    }

    pub closed spec fn m(self) -> int {
        self.month as int
    }

    pub closed spec fn d(self) -> int {
        self.day as int
    }

    pub open spec fn ymd(self) -> (int, int, int) {
        (self.y(), self.m(), self.d())
    }

    pub open spec fn num(self) -> int {
        day_number(self.y(), self.m(), self.d())
    }

    /// Strict chronological order.
    pub open spec fn before(self, o: Date) -> bool {
        ymd_lt(self.ymd(), o.ymd())
    }

    /// A number that grows with the date; used as a measure for stepping loops.
    pub open spec fn rank(self) -> int {
        self.y() * 416 + self.m() * 32 + self.d()
    }

    /// Two dates are equal exactly when year, month and day are.
    pub proof fn lemma_eq(self, o: Date)
        ensures
            self == o <==> (self.y() == o.y() && self.m() == o.m() && self.d() == o.d()),
    {
    }

    /// The date `year-month-day`, when it exists in the supported range.
    pub fn from_ymd(year: i32, month: u32, day: u32) -> (r: Option<Date>)
        ensures
            r is Some <==> valid_ymd(year as int, month as int, day as int),
            r matches Some(x) ==> x.y() == year && x.m() == month && x.d() == day,
    {
        if year < MIN_YEAR || year > MAX_YEAR || month < 1 || month > 12 || day < 1 {
            return None;
        }
        if day > days_in_month(year, month) {
            return None;
        }
        Some(Date { year, month, day })
    }

    pub fn year(&self) -> (r: i32)
        ensures
            r == self.y(),
            MIN_YEAR <= r <= MAX_YEAR,
    {
        proof {
            use_type_invariant(self);
        }
        self.year
    }

    pub fn month(&self) -> (r: u32)
        ensures
            r == self.m(),
            1 <= r <= 12,
    {
        proof {
            use_type_invariant(self);
        }
        self.month
    }

    pub fn day(&self) -> (r: u32)
        ensures
            r == self.d(),
            1 <= r <= month_len(self.y(), self.m()),
    {
        proof {
            use_type_invariant(self);
        }
        self.day
    }

    /// Number of days in the month of this date.
    pub fn num_days_in_month(&self) -> (r: u32)
        ensures
            r == month_len(self.y(), self.m()),
            28 <= r <= 31,
    {
        proof {
            use_type_invariant(self);
        }
        days_in_month(self.year, self.month)
    }

    /// This date with its day of month replaced by `day`.
    pub fn with_day(&self, day: u32) -> (r: Date)
        requires
            1 <= day <= month_len(self.y(), self.m()),
        ensures
            r.y() == self.y() && r.m() == self.m() && r.d() == day,
    {
        proof {
            use_type_invariant(self);
        }
        Date { year: self.year, month: self.month, day }
    }

    pub fn is_before(&self, o: &Date) -> (r: bool)
        ensures
            r == self.before(*o),
            r <==> self.rank() < o.rank(),
            *self == *o <==> self.rank() == o.rank(),
            valid_ymd(self.y(), self.m(), self.d()),
            valid_ymd(o.y(), o.m(), o.d()),
    {
        proof {
            use_type_invariant(self);
            use_type_invariant(o);
        }
        self.year < o.year || (self.year == o.year && (self.month < o.month || (self.month
            == o.month && self.day < o.day)))
    }

    pub fn is_leap_year(&self) -> (r: bool)
        ensures
            r == is_leap_year(self.y()),
    {
        days_in_month(self.year, 2) == 29
    }

    /// The date `months` months later, the day clamped to the target month's
    /// length; `None` when that date is out of range.
    pub fn add_months(&self, months: u32) -> (r: Option<Date>)
        ensures
            r is Some <==> MIN_YEAR <= shift_months(self.y(), self.m(), self.d(), months as int).0 <= MAX_YEAR,
            r matches Some(x) ==> (x.y(), x.m(), x.d()) == shift_months(self.y(), self.m(), self.d(), months as int),
    {
        chrono_add_months(*self, months)
    }

    /// The date `months` months earlier, the day clamped to the target month's
    /// length; `None` when that date is out of range.
    pub fn sub_months(&self, months: u32) -> (r: Option<Date>)
        ensures
            r is Some <==> MIN_YEAR <= shift_months(self.y(), self.m(), self.d(), -(months as int)).0 <= MAX_YEAR,
            r matches Some(x) ==> (x.y(), x.m(), x.d()) == shift_months(self.y(), self.m(), self.d(), -(months as int)),
    {
        chrono_sub_months(*self, months)
    }

    /// The date `days` days later; `None` when out of range.
    pub fn add_days(&self, days: u64) -> (r: Option<Date>)
        ensures
            r is Some <==> num_in_range(self.num() + days),
            r matches Some(x) ==> x.ymd() == civil_from_days(self.num() + days) && x.num() == self.num() + days,
    {
        chrono_add_days(*self, days)
    }

    /// The date `days` days earlier; `None` when out of range.
    pub fn sub_days(&self, days: u64) -> (r: Option<Date>)
        ensures
            r is Some <==> num_in_range(self.num() - days),
            r matches Some(x) ==> x.ymd() == civil_from_days(self.num() - days) && x.num() == self.num() - days,
    {
        chrono_sub_days(*self, days)
    }

    /// Signed number of days from `self` to `end`.
    pub fn days_until(&self, end: &Date) -> (r: i64)
        ensures
            r == end.num() - self.num(),
    {
        chrono_days_between(*self, *end)
    }
}

pub fn days_in_month(year: i32, month: u32) -> (r: u32)
    requires
        1 <= month <= 12,
    ensures
        r == month_len(year as int, month as int),
{
    if month == 2 {
        if (year % 4 == 0 && year % 100 != 0) || year % 400 == 0 {
            29
        } else {
            28
        }
    } else if month == 4 || month == 6 || month == 9 || month == 11 {
        30
    } else {
        31
    }
}

/// Relies on chrono's `NaiveDate::checked_add_months`: the month index moves by
/// `months`, the day is clamped to the target month, and the result is `None`
/// exactly when the target year leaves chrono's range.
#[verifier::external_body]
fn chrono_add_months(d: Date, months: u32) -> (r: Option<Date>)
    ensures
        r is Some <==> MIN_YEAR <= shift_months(d.y(), d.m(), d.d(), months as int).0 <= MAX_YEAR,
        r matches Some(x) ==> (x.y(), x.m(), x.d()) == shift_months(d.y(), d.m(), d.d(), months as int),
{
    let n = chrono::NaiveDate::from_ymd_opt(d.year, d.month, d.day).unwrap();
    n.checked_add_months(chrono::Months::new(months)).map(
        |x| Date { year: x.year(), month: x.month(), day: x.day() },
    )
}

/// Relies on chrono's `NaiveDate::checked_sub_months`, as `chrono_add_months`
/// but backwards.
#[verifier::external_body]
fn chrono_sub_months(d: Date, months: u32) -> (r: Option<Date>)
    ensures
        r is Some <==> MIN_YEAR <= shift_months(d.y(), d.m(), d.d(), -(months as int)).0 <= MAX_YEAR,
        r matches Some(x) ==> (x.y(), x.m(), x.d()) == shift_months(d.y(), d.m(), d.d(), -(months as int)),
{
    let n = chrono::NaiveDate::from_ymd_opt(d.year, d.month, d.day).unwrap();
    n.checked_sub_months(chrono::Months::new(months)).map(
        |x| Date { year: x.year(), month: x.month(), day: x.day() },
    )
}

/// Relies on chrono's `NaiveDate::checked_add_days`: the date `days` days
/// later, `None` exactly when its day number leaves chrono's range.
#[verifier::external_body]
fn chrono_add_days(d: Date, days: u64) -> (r: Option<Date>)
    ensures
        r is Some <==> num_in_range(d.num() + days),
        r matches Some(x) ==> x.ymd() == civil_from_days(d.num() + days) && x.num() == d.num() + days,
{
    let n = chrono::NaiveDate::from_ymd_opt(d.year, d.month, d.day).unwrap();
    n.checked_add_days(chrono::Days::new(days)).map(
        |x| Date { year: x.year(), month: x.month(), day: x.day() },
    )
}

/// Relies on chrono's `NaiveDate::checked_sub_days`: the date `days` days
/// earlier, `None` exactly when its day number leaves chrono's range.
#[verifier::external_body]
fn chrono_sub_days(d: Date, days: u64) -> (r: Option<Date>)
    ensures
        r is Some <==> num_in_range(d.num() - days),
        r matches Some(x) ==> x.ymd() == civil_from_days(d.num() - days) && x.num() == d.num() - days,
{
    let n = chrono::NaiveDate::from_ymd_opt(d.year, d.month, d.day).unwrap();
    n.checked_sub_days(chrono::Days::new(days)).map(
        |x| Date { year: x.year(), month: x.month(), day: x.day() },
    )
}

/// Relies on chrono's `NaiveDate::signed_duration_since` and
/// `TimeDelta::num_days`: the exact number of days from `start` to `end`.
#[verifier::external_body]
fn chrono_days_between(start: Date, end: Date) -> (r: i64)
    ensures
        r == end.num() - start.num(),
{
    let s = chrono::NaiveDate::from_ymd_opt(start.year, start.month, start.day).unwrap();
    let e = chrono::NaiveDate::from_ymd_opt(end.year, end.month, end.day).unwrap();
    e.signed_duration_since(s).num_days()
}

} // verus!
