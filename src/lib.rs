pub mod calendar;
pub mod date;
pub mod daycounts;
pub mod period;
pub mod roll_conv;
pub mod schedule;
pub mod schedule_period;

pub use calendar::{Adjuster, BusdayConvention, BusinessCalendar, EveryDayCalendar};
pub use date::Date;
pub use daycounts::{Daycounts, YearFraction};
pub use period::Period;
pub use roll_conv::{Roll, RollConvention};
pub use schedule::Schedule;
pub use schedule_period::SchedulePeriod;






use vstd::prelude::*;

verus! {

/// Failures of schedule construction and date arithmetic.
#[derive(Clone, Debug, PartialEq, Eq)]
pub enum SchedulingError {
    /// A textual period or convention could not be read.
    ParseErr(String),
    /// A date shift left the range of representable dates.
    DateArithmeticOverflow,
    /// A step size that is zero, or that does not move dates forward.
    InvalidPeriod,
    /// Boundary dates that are not in increasing order.
    InvalidDateRange,
}

} // verus!
