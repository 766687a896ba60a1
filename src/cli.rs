use vstd::prelude::*;
use crate::calendar::Calendar;

verus! {

/// Earliest year that the command line accepts: the first full year of the Gregorian
/// calendar.
pub const MIN_YEAR: u16 = 1583;

/// What the command line asks to be printed.
#[derive(Clone, Copy, Debug, PartialEq, Eq, Structural)]
pub enum View {
    /// All twelve months of a year.
    EntireYear(u16),
    /// One month alone.
    OneMonth(Calendar),
    /// A month between the months before and after it.
    ThreeMonths(Calendar),
}

/// Command lines that name no printable calendar.
#[derive(Clone, Copy, Debug, PartialEq, Eq, Structural)]
pub enum ArgError {
    /// The year is before `MIN_YEAR`.
    YearTooEarly,
    /// The month is not between 1 and 12.
    MonthOutOfRange,
}

/// The command line's arguments, as numbers.
#[derive(Clone, Copy, Debug, PartialEq, Eq, Structural)]
pub struct Request {
    /// Print the whole year.
    pub show_year: bool,
    /// Print one month instead of three.
    pub single_month: bool,
    /// The first positional argument: a year when above 12, else a month from 1.
    pub first: Option<u16>,
    /// Whether a second positional argument was given.
    pub second_given: bool,
    /// The second positional argument, a month from 1, when given and a number.
    pub second: Option<u8>,
}

impl Request {
    /// The year asked for: the first argument when it is above 12, else `today_year`.
    pub open spec fn year(&self, today_year: u16) -> u16 {
        match self.first {
            Some(n) => if n > 12 {
                n
            } else {
                today_year
            },
            None => today_year,
        }
    }

    /// The month (from 1) asked for: the first argument when it is at most 12, the second
    /// when the first is a year, else none.
    pub open spec fn month(&self) -> Option<u8> {
        match self.first {
            Some(n) => if n > 12 {
                self.second
            } else {
                Some(n as u8)
            },
            None => None,
        }
    }

    /// Whether the whole year is asked for: by the flag, or by a lone first argument that
    /// names a year other than the current one.
    pub open spec fn wants_year(&self, today_year: u16) -> bool {
        self.show_year || (self.first.is_some() && !self.second_given && self.year(today_year)
            != today_year)
    }

    /// What to print for this command line, given today's year and month (from 0).
    ///
    /// A year before `MIN_YEAR` is refused first; then the whole year is printed when asked
    /// for; otherwise the month asked for, which must lie in 1 to 12, or the current month
    /// when none is, in the given year.
    pub fn choose_view(&self, today_year: u16, today_month0: u8) -> (r: Result<View, ArgError>)
        requires
            today_month0 < 12,
        ensures
            ({
                let year = self.year(today_year);
                if year < MIN_YEAR {
                    r == Err::<View, ArgError>(ArgError::YearTooEarly)
                } else if self.wants_year(today_year) {
                    r == Ok::<View, ArgError>(View::EntireYear(year))
                } else {
                    match self.month() {
                        Some(m) => if 1 <= m <= 12 {
                            r == Ok::<View, ArgError>(
                                self.shape(Calendar { year, month: (m - 1) as u8 }),
                            )
                        } else {
                            r == Err::<View, ArgError>(ArgError::MonthOutOfRange)
                        },
                        None => r == Ok::<View, ArgError>(
                            self.shape(Calendar { year, month: today_month0 }),
                        ),
                    }
                }
            }),
            r matches Ok(v) ==> v.wf(),
    {
        let (year, month) = match self.first {
            Some(num) => {
                if num > 12 {
                    (num, self.second)
                } else {
                    (today_year, Some(num as u8))
                }
            },
            None => (today_year, None),
        };
        if year < MIN_YEAR {
            return Err(ArgError::YearTooEarly);
        }
        if self.show_year || (self.first.is_some() && !self.second_given && year != today_year) {
            return Ok(View::EntireYear(year));
        }
        let cal = match month {
            Some(m) => {
                if m < 1 || m > 12 {
                    return Err(ArgError::MonthOutOfRange);
                }
                Calendar { year, month: m - 1 }
            },
            None => Calendar { year, month: today_month0 },
        };
        if self.single_month {
            Ok(View::OneMonth(cal))
        } else {
            Ok(View::ThreeMonths(cal))
        }
    }

    /// One month or three around `cal`, as the flag asks.
    pub open spec fn shape(&self, cal: Calendar) -> View {
        if self.single_month {
            View::OneMonth(cal)
        } else {
            View::ThreeMonths(cal)
        }
    }
}

impl View {
    /// The months it shows are ones that the arithmetic is defined on.
    pub open spec fn wf(&self) -> bool {
        match self {
            View::EntireYear(y) => *y >= 1,
            View::OneMonth(c) => c.wf(),
            View::ThreeMonths(c) => c.wf(),
        }
    }
}

} // verus!
