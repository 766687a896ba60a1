use vstd::prelude::*;

verus! {

/// True when `year` is a leap year of the proleptic Gregorian calendar.
pub open spec fn is_leap(year: int) -> bool {
    if year % 100 == 0 {
        year % 400 == 0
    } else {
        year % 4 == 0
    }
}

/// Number of days before the first day of `year`, counted from the first day of year 1.
pub open spec fn year_base(year: int) -> int {
    let y = year - 1;
    y * 365 + y / 4 - y / 100 + y / 400
}

/// Length of month `month` (0-based) in a common year.
pub open spec fn common_month_length(month: int) -> int {
    if month == 1 {
        28
    } else if month == 3 || month == 5 || month == 8 || month == 10 {
        30
    } else {
        31
    }
}

/// Days in the months before `month` of a common year.
pub open spec fn common_days_before(month: nat) -> int
    decreases month,
{
    if month == 0 {
        0
    } else {
        common_days_before((month - 1) as nat) + common_month_length(month - 1)
    }
}

/// Length of month `month` (0-based) of `year`: February gains a day in leap years.
pub open spec fn month_length(year: int, month: int) -> int {
    common_month_length(month) + if is_leap(year) && month == 1 { 1int } else { 0int }
}

/// Number of days before the first day of `month` of `year`, counted from the first day of year 1.
pub open spec fn month_base(year: int, month: int) -> int {
    year_base(year) + common_days_before(month as nat) + if is_leap(year) && month > 1 {
        1int
    } else {
        0int
    }
}

/// Day of the week of a day offset, Sunday being 0.
pub open spec fn weekday_of(n: int) -> DayOfWeek {
    let r = n % 7;
    if r == 0 {
        DayOfWeek::Sun
    } else if r == 1 {
        DayOfWeek::Mon
    } else if r == 2 {
        DayOfWeek::Tue
    } else if r == 3 {
        DayOfWeek::Wed
    } else if r == 4 {
        DayOfWeek::Thu
    } else if r == 5 {
        DayOfWeek::Fri
    } else {
        DayOfWeek::Sat
    }
}

/// The days of the week, in the order Sunday (0) to Saturday (6).
#[derive(Clone, Copy, Debug, PartialEq, Eq, Structural)]
pub enum DayOfWeek {
    Sun,
    Mon,
    Tue,
    Wed,
    Thu,
    Fri,
    Sat,
}

impl DayOfWeek {
    /// The day of the week of day number `day`, counting Sunday as 0 modulo 7.
    pub fn from_day_number(day: u32) -> (r: DayOfWeek)
        ensures
            r == weekday_of(day as int),
    {
        match day % 7 {
            0 => DayOfWeek::Sun,
            1 => DayOfWeek::Mon,
            2 => DayOfWeek::Tue,
            3 => DayOfWeek::Wed,
            4 => DayOfWeek::Thu,
            5 => DayOfWeek::Fri,
            _ => DayOfWeek::Sat,
        }
    }

    /// Position in the week, Sunday being 0.
    pub open spec fn index(self) -> int {
        match self {
            DayOfWeek::Sun => 0,
            DayOfWeek::Mon => 1,
            DayOfWeek::Tue => 2,
            DayOfWeek::Wed => 3,
            DayOfWeek::Thu => 4,
            DayOfWeek::Fri => 5,
            DayOfWeek::Sat => 6,
        }
    }

    /// Position in the week, Sunday being 0.
    pub fn number(&self) -> (r: u32)
        ensures
            r == self.index(),
    {
        match self {
            DayOfWeek::Sun => 0,
            DayOfWeek::Mon => 1,
            DayOfWeek::Tue => 2,
            DayOfWeek::Wed => 3,
            DayOfWeek::Thu => 4,
            DayOfWeek::Fri => 5,
            DayOfWeek::Sat => 6,
        }
    }

    /// Three-letter English abbreviation of the day.
    pub fn name(&self) -> (r: &'static str)
        ensures
            r@ == weekday_name(self.index()),
    {
        match self {
            DayOfWeek::Sun => "Sun",
            DayOfWeek::Mon => "Mon",
            DayOfWeek::Tue => "Tue",
            DayOfWeek::Wed => "Wed",
            DayOfWeek::Thu => "Thu",
            DayOfWeek::Fri => "Fri",
            DayOfWeek::Sat => "Sat",
        }
    }
}

/// Three-letter English abbreviation of day `i` of the week, Sunday being 0.
pub open spec fn weekday_name(i: int) -> Seq<char> {
    if i == 0 {
        "Sun"@
    } else if i == 1 {
        "Mon"@
    } else if i == 2 {
        "Tue"@
    } else if i == 3 {
        "Wed"@
    } else if i == 4 {
        "Thu"@
    } else if i == 5 {
        "Fri"@
    } else {
        "Sat"@
    }
}

/// Length of month `month` (0-based) in a common year.
fn common_days(month: u8) -> (r: u32)
    requires
        month < 12,
    ensures
        r == common_month_length(month as int),
{
    if month == 1 {
        28
    } else if month == 3 || month == 5 || month == 8 || month == 10 {
        30
    } else {
        31
    }
}

/// Relies on chrono's `Local::now`, `DateTime::date_naive` and the `Datelike` accessors:
/// today's date in the local time zone as (day, month0, year). chrono documents `day` as
/// ranging over 1 to 31 and `month0` over 0 to 11, and its dates are real dates of the
/// proleptic Gregorian calendar, so the day lies within its month. chrono panics when the
/// system clock reads a time before 1970 or when it cannot determine the local time zone's
/// offset: states of the machine, not of any input, which no precondition can rule out.
#[verifier::external_body]
fn local_today() -> (r: (u32, u32, i32))
    ensures
        1 <= r.0 <= 31,
        r.1 < 12,
        r.0 <= month_length(r.2 as int, r.1 as int),
{
    let now = chrono::Local::now().date_naive();
    (chrono::Datelike::day(&now), chrono::Datelike::month0(&now), chrono::Datelike::year(&now))
}

/// A month of a given year; `month` counts from 0 (January) to 11 (December).
#[derive(Clone, Copy, Debug, PartialEq, Eq, Structural)]
pub struct Calendar {
    pub month: u8,
    pub year: u16,
}

impl Calendar {
    /// A month that the arithmetic is defined on.
    pub open spec fn wf(&self) -> bool {
        self.year >= 1 && self.month < 12
    }

    /// Today's local date as (day of month from 1, month from 0, year); the year is taken
    /// modulo 2^16, as the `year` field holds it. The day lies within its month, except that
    /// 29 February may come with a truncated year that is not a leap year.
    pub fn get_today() -> (r: (u32, u8, u16))
        ensures
            1 <= r.0 <= 31,
            r.1 < 12,
            r.0 <= month_length(r.2 as int, r.1 as int) || (r.1 == 1 && r.0 == 29),
    {
        let (day, month0, year) = local_today();
        (day, month0 as u8, year as u16)
    }

    /// Months elapsed since January of year 0: orders calendars by time.
    pub open spec fn index(&self) -> int {
        self.year * 12 + self.month
    }

    /// Whether absolute day offset `d` falls within this calendar's month.
    pub open spec fn holds_day(&self, d: int) -> bool {
        month_base(self.year as int, self.month as int) <= d < month_base(
            self.year as int,
            self.month as int,
        ) + month_length(self.year as int, self.month as int)
    }

    /// The month before this one, crossing into December of the previous year from January.
    pub fn prev_month(&self) -> (r: Calendar)
        requires
            self.wf(),
            !(self.year == 1 && self.month == 0),
        ensures
            r.wf(),
            r.index() == self.index() - 1,
    {
        if self.month == 0 {
            Calendar { year: self.year - 1, month: 11 }
        } else {
            Calendar { year: self.year, month: self.month - 1 }
        }
    }

    /// The month after this one, crossing into January of the next year from December.
    pub fn next_month(&self) -> (r: Calendar)
        requires
            self.wf(),
            !(self.year == u16::MAX && self.month == 11),
        ensures
            r.wf(),
            r.index() == self.index() + 1,
    {
        if self.month == 11 {
            Calendar { year: self.year + 1, month: 0 }
        } else {
            Calendar { year: self.year, month: self.month + 1 }
        }
    }

    /// Days from the start of year 1 to the start of this calendar's year.
    pub fn get_year_base_day(&self) -> (r: u32)
        requires
            self.year >= 1,
        ensures
            r == year_base(self.year as int),
    {
        let year = (self.year - 1) as u32;
        let base_days_for_year = year * 365;
        let leap_days_for_year = year / 4;
        let leap_misses_for_century = year / 100;
        let leap_hits_for_century = year / 400;
        base_days_for_year + leap_days_for_year - leap_misses_for_century + leap_hits_for_century
    }

    /// Days from the start of year 1 to the first day of this calendar's month.
    pub fn get_month_base_day(&self) -> (r: u32)
        requires
            self.wf(),
        ensures
            r == month_base(self.year as int, self.month as int),
            r >= year_base(self.year as int),
    {
        let year_first_day = self.get_year_base_day();
        let month = self.month;
        let mut month_days: u32 = 0;
        let mut i: u8 = 0;
        while i < month
            invariant
                i <= month < 12,
                month_days == common_days_before(i as nat),
                month_days <= 31 * i,
            decreases month - i,
        {
            month_days = month_days + common_days(i);
            i = i + 1;
        }
        if self.is_leap_year() && month > 1 {
            year_first_day + month_days + 1
        } else {
            year_first_day + month_days
        }
    }

    /// Number of days in this calendar's month.
    pub fn get_total_days_in_month(&self) -> (r: u32)
        requires
            self.wf(),
        ensures
            r == month_length(self.year as int, self.month as int),
            28 <= r <= 31,
    {
        let mut total_days = common_days(self.month);
        if self.is_leap_year() && self.month == 1 {
            total_days = total_days + 1;
        }
        total_days
    }

    /// Day of the week of the day that lies `day` days after the start of this month's base day.
    pub fn get_day_of_week(&self, day: u32) -> (r: DayOfWeek)
        requires
            self.wf(),
        ensures
            r == weekday_of(month_base(self.year as int, self.month as int) + day),
    {
        let base = self.get_month_base_day();
        let n = base % 7 + day % 7;
        proof {
            lemma_add_mod_7(base as int, day as int);
        }
        DayOfWeek::from_day_number(n)
    }

    /// Whether this calendar's year is a leap year.
    pub fn is_leap_year(&self) -> (r: bool)
        ensures
            r == is_leap(self.year as int),
    {
        if self.year % 100 == 0 {
            self.year % 400 == 0
        } else {
            self.year % 4 == 0
        }
    }
}

/// A year spans 366 days when it is a leap year and 365 days otherwise.
pub proof fn lemma_year_length(year: int)
    requires
        year >= 1,
    ensures
        year_base(year + 1) - year_base(year) == if is_leap(year) { 366int } else { 365int },
        365 <= year_base(year + 1) - year_base(year) <= 366,
{
    lemma_div_step(year, 4);
    lemma_div_step(year, 100);
    lemma_div_step(year, 400);
    assert(year % 400 == 0 ==> year % 100 == 0);
    assert(year % 100 == 0 ==> year % 4 == 0);
}

/// Day offset of 1970-01-01, the first day of the Unix epoch.
pub const EPOCH_BASE: u32 = 719162;

/// Largest count of days since 1970-01-01 whose month has a year that fits in `u16`.
pub const MAX_EPOCH_DAYS: u32 = 23217003;

/// The constants name the offsets that the day arithmetic gives them.
pub proof fn lemma_epoch_constants()
    ensures
        EPOCH_BASE == month_base(1970, 0),
        EPOCH_BASE + MAX_EPOCH_DAYS + 1 == year_base(u16::MAX + 1),
{
    assert(year_base(1970) == 719162);
    assert(year_base(65536) == 23936166);
}

/// The month that holds the day `days` days after 1970-01-01 (one exists, and only one:
/// see `lemma_holds_day_unique`).
pub open spec fn epoch_month(days: int) -> Calendar {
    choose|c: Calendar| c.wf() && c.holds_day(EPOCH_BASE + days)
}

/// The month that holds the day `days` days after 1970-01-01.
///
/// The search starts from January of a year no later than the answer (every year has
/// fewer than 367 days) and walks forward one month at a time.
pub fn date_from_epoch_days(days: u32) -> (r: Calendar)
    requires
        days <= MAX_EPOCH_DAYS,
    ensures
        r.wf(),
        r.year >= 1970,
        r.holds_day(EPOCH_BASE + days),
        r == epoch_month(days as int),
{
    proof {
        lemma_epoch_constants();
    }
    let target: u32 = EPOCH_BASE + days;
    let start: u16 = (1970 + days / 366) as u16;
    proof {
        lemma_year_span(1970, (days / 366) as int);
    }
    let mut cal = Calendar { year: start, month: 0 };
    loop
        invariant
            cal.wf(),
            cal.year >= 1970,
            target == EPOCH_BASE + days,
            month_base(cal.year as int, cal.month as int) <= target,
            (target as int) < year_base(u16::MAX + 1),
        decreases target - month_base(cal.year as int, cal.month as int),
    {
        let base = cal.get_month_base_day();
        let next = base + cal.get_total_days_in_month();
        if next > target {
            proof {
                let d = EPOCH_BASE + days;
                assert(cal.wf() && cal.holds_day(d));
                let e = epoch_month(days as int);
                lemma_holds_day_unique(cal, e, d);
            }
            return cal;
        }
        proof {
            lemma_index_parts(cal);
            lemma_index_step(cal.index());
            if cal.month == 11 && cal.year == u16::MAX {
                let n = cal.index() + 1;
                vstd::arithmetic::div_mod::lemma_fundamental_div_mod_converse(n, 12, u16::MAX + 1, 0);
            }
        }
        let nxt = cal.next_month();
        proof {
            lemma_index_parts(nxt);
        }
        cal = nxt;
    }
}

/// The month after `c` starts where `c` ends.
pub proof fn lemma_next_month_base(c: Calendar, n: Calendar)
    requires
        c.wf(),
        n.wf(),
        n.index() == c.index() + 1,
    ensures
        month_base(n.year as int, n.month as int) == month_base(c.year as int, c.month as int)
            + month_length(c.year as int, c.month as int),
{
    lemma_index_parts(c);
    lemma_index_parts(n);
    lemma_index_step(c.index());
}

/// Two months that hold the same day are the same month.
pub proof fn lemma_holds_day_unique(a: Calendar, b: Calendar, d: int)
    requires
        a.wf(),
        b.wf(),
        a.holds_day(d),
        b.holds_day(d),
    ensures
        a == b,
{
    lemma_index_parts(a);
    lemma_index_parts(b);
    if a.index() < b.index() {
        lemma_index_order(a.index(), b.index());
    } else if a.index() > b.index() {
        lemma_index_order(b.index(), a.index());
    }
}

/// Round trip through the epoch: for a month of year 1970 or later, the number of days from
/// 1970-01-01 to its first day is an argument that `date_from_epoch_days` accepts, and it
/// resolves to the month itself.
pub proof fn lemma_epoch_round_trip(year: u16, month: u8)
    requires
        year >= 1970,
        month < 12,
    ensures
        0 <= month_base(year as int, month as int) - EPOCH_BASE <= MAX_EPOCH_DAYS,
        epoch_month(month_base(year as int, month as int) - EPOCH_BASE) == (Calendar {
            year,
            month,
        }),
{
    let c = Calendar { year, month };
    lemma_epoch_constants();
    lemma_index_parts(c);
    lemma_year_span(1970, year - 1970);
    lemma_month_within_year(year as int, month as int);
    lemma_year_length(year as int);
    let d = month_base(year as int, month as int);
    assert(c.wf() && c.holds_day(d));
    let r = epoch_month(d - EPOCH_BASE);
    lemma_holds_day_unique(r, c, d);
}

/// A month's first day lies within its year: at or after the year's first day and before
/// the next year's.
pub proof fn lemma_month_within_year(year: int, month: int)
    requires
        year >= 1,
        0 <= month < 12,
    ensures
        year_base(year) <= month_base(year, month),
        month_base(year, month) + month_length(year, month) <= year_base(year + 1),
{
    if month > 0 {
        lemma_month_base_increasing(year, 0, month);
    }
    if month < 11 {
        lemma_month_base_increasing(year, month, 11);
    }
    let i = year * 12 + 11;
    vstd::arithmetic::div_mod::lemma_fundamental_div_mod_converse(i, 12, year, 11);
    lemma_index_step(i);
    vstd::arithmetic::div_mod::lemma_fundamental_div_mod_converse(i + 1, 12, year + 1, 0);
    lemma_common_days_before_values();
}

/// Day offset of the first day of the month with linear index `i` (see `Calendar::index`).
pub open spec fn index_base(i: int) -> int {
    month_base(i / 12, i % 12)
}

/// Length of the month with linear index `i`.
pub open spec fn index_length(i: int) -> int {
    month_length(i / 12, i % 12)
}

/// A calendar's linear index recovers its year and month.
proof fn lemma_index_parts(c: Calendar)
    requires
        c.wf(),
    ensures
        c.index() / 12 == c.year,
        c.index() % 12 == c.month,
        index_base(c.index()) == month_base(c.year as int, c.month as int),
        index_length(c.index()) == month_length(c.year as int, c.month as int),
{
    vstd::arithmetic::div_mod::lemma_fundamental_div_mod_converse(
        c.index(),
        12,
        c.year as int,
        c.month as int,
    );
}

/// Days of a common year before December.
proof fn lemma_common_days_before_values()
    ensures
        common_days_before(11) == 334,
{
    reveal_with_fuel(common_days_before, 12);
}

/// The month after the one with index `i` starts where month `i` ends.
pub proof fn lemma_index_step(i: int)
    requires
        i >= 12,
    ensures
        index_base(i + 1) == index_base(i) + index_length(i),
        28 <= index_length(i) <= 31,
{
    let y = i / 12;
    let m = i % 12;
    lemma_common_days_before_values();
    if m < 11 {
        vstd::arithmetic::div_mod::lemma_fundamental_div_mod_converse(i + 1, 12, y, m + 1);
        assert(common_days_before((m + 1) as nat) == common_days_before(m as nat)
            + common_month_length(m));
    } else {
        vstd::arithmetic::div_mod::lemma_fundamental_div_mod_converse(i + 1, 12, y + 1, 0);
        lemma_year_length(y);
    }
}

/// A month with a smaller index ends no later than a month with a larger index begins.
pub proof fn lemma_index_order(i: int, j: int)
    requires
        12 <= i < j,
    ensures
        index_base(i) + index_length(i) <= index_base(j),
    decreases j - i,
{
    lemma_index_step(i);
    if i + 1 < j {
        lemma_index_order(i + 1, j);
        lemma_index_step(i + 1);
    }
}

/// Within a year, each month starts where the one before it ends, and month starts grow
/// strictly with the month.
pub proof fn lemma_month_base_increasing(year: int, m1: int, m2: int)
    requires
        year >= 1,
        0 <= m1 < m2 < 12,
    ensures
        month_base(year, m1) < month_base(year, m2),
        month_base(year, m1) + month_length(year, m1) <= month_base(year, m2),
{
    let i = year * 12 + m1;
    let j = year * 12 + m2;
    vstd::arithmetic::div_mod::lemma_fundamental_div_mod_converse(i, 12, year, m1);
    vstd::arithmetic::div_mod::lemma_fundamental_div_mod_converse(j, 12, year, m2);
    lemma_index_order(i, j);
    lemma_index_step(i);
}

/// Over `k` years the start of the year moves by at least 365 and at most 366 days a year.
pub proof fn lemma_year_span(a: int, k: int)
    requires
        a >= 1,
        k >= 0,
    ensures
        365 * k <= year_base(a + k) - year_base(a) <= 366 * k,
    decreases k,
{
    if k > 0 {
        lemma_year_span(a, k - 1);
        lemma_year_length(a + k - 1);
    }
}

/// Stepping `x` down by one lowers `x / k` by one exactly when `k` divides `x`.
proof fn lemma_div_step(x: int, k: int)
    requires
        x >= 1,
        k > 0,
    ensures
        x / k - (x - 1) / k == if x % k == 0 { 1int } else { 0int },
{
    vstd::arithmetic::div_mod::lemma_fundamental_div_mod(x, k);
    let q = x / k;
    let r = x % k;
    assert((q - 1) * k == q * k - k) by (nonlinear_arith);
    assert(q * k == k * q) by (nonlinear_arith);
    if r == 0 {
        vstd::arithmetic::div_mod::lemma_fundamental_div_mod_converse(x - 1, k, q - 1, k - 1);
    } else {
        vstd::arithmetic::div_mod::lemma_fundamental_div_mod_converse(x - 1, k, q, r - 1);
    }
}

/// Adding offsets commutes with taking them modulo 7.
proof fn lemma_add_mod_7(a: int, b: int)
    requires
        a >= 0,
        b >= 0,
    ensures
        (a % 7 + b % 7) % 7 == (a + b) % 7,
{
    vstd::arithmetic::div_mod::lemma_add_mod_noop(a, b, 7);
}

} // verus!
