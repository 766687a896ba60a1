use vstd::prelude::*;
use vstd::string::StringExecFns;
use crate::calendar::{Calendar, month_base, month_length};

verus! {

/// Width of one month's grid in characters: seven day cells of four characters.
pub const MONTH_WIDTH: usize = 28;

/// A run of `n` spaces.
pub open spec fn blank(n: nat) -> Seq<char> {
    Seq::new(n, |_i: int| ' ')
}

/// English name of month `month` (0-based).
pub open spec fn month_name_of(month: int) -> Seq<char> {
    if month == 0 {
        "January"@
    } else if month == 1 {
        "February"@
    } else if month == 2 {
        "March"@
    } else if month == 3 {
        "April"@
    } else if month == 4 {
        "May"@
    } else if month == 5 {
        "June"@
    } else if month == 6 {
        "July"@
    } else if month == 7 {
        "August"@
    } else if month == 8 {
        "September"@
    } else if month == 9 {
        "October"@
    } else if month == 10 {
        "November"@
    } else {
        "December"@
    }
}

/// A string of `n` spaces.
pub fn spaces(n: usize) -> (r: String)
    ensures
        r@ == blank(n as nat),
{
    let mut s = String::new();
    let mut i: usize = 0;
    while i < n
        invariant
            i <= n,
            s@ == blank(i as nat),
        decreases n - i,
    {
        s.append(" ");
        proof {
            reveal_strlit(" ");
            assert(s@ =~= blank((i + 1) as nat));
        }
        i = i + 1;
    }
    s
}

/// Number of spaces printed before `v` so that it ends a four-character cell.
pub open spec fn pad_width(v: int) -> nat {
    if v <= 9 {
        3
    } else if v <= 99 {
        2
    } else {
        1
    }
}

/// The spaces that precede `v` in its four-character cell.
pub fn pad(v: u32) -> (r: String)
    ensures
        r@ == blank(pad_width(v as int)),
{
    if v <= 9 {
        spaces(3)
    } else if v <= 99 {
        spaces(2)
    } else {
        spaces(1)
    }
}

impl Calendar {
    /// English name of this calendar's month.
    pub fn get_month_name(&self) -> (r: &'static str)
        requires
            self.wf(),
        ensures
            r@ == month_name_of(self.month as int),
    {
        match self.month {
            0 => "January",
            1 => "February",
            2 => "March",
            3 => "April",
            4 => "May",
            5 => "June",
            6 => "July",
            7 => "August",
            8 => "September",
            9 => "October",
            10 => "November",
            _ => "December",
        }
    }

    /// Spaces to the left and to the right of the month's name so that the name, shifted
    /// one place right of centre, fills a grid's width.
    pub fn heading_padding(&self) -> (r: (usize, usize))
        requires
            self.wf(),
        ensures
            r.0 == (MONTH_WIDTH - month_name_of(self.month as int).len()) / 2 + 1,
            r.0 + month_name_of(self.month as int).len() + r.1 == MONTH_WIDTH,
    {
        let name_length = month_name_length(self.month);
        let empty_space_left = (MONTH_WIDTH - name_length) / 2 + 1;
        let empty_space_right = MONTH_WIDTH - name_length - empty_space_left;
        (empty_space_left, empty_space_right)
    }

    /// Day of the month shown in the first cell (Sunday) of grid row `line_no`; zero or less
    /// when that cell lies before the first of the month. Row 0 starts on the first of the
    /// month when that is a Sunday, and on the Sunday before it otherwise.
    pub fn calculate_line_start(&self, line_no: u32) -> (r: i32)
        requires
            self.wf(),
            line_no < 6,
        ensures
            r == line_start(self.year as int, self.month as int, line_no as int),
    {
        let base = self.get_month_base_day();
        proof {
            vstd::arithmetic::div_mod::lemma_add_mod_noop(base as int, 1, 7);
        }
        let month_base = (base % 7) as i32;
        let mut line_no = line_no;
        if month_base == 6 {
            line_no = line_no + 1;
        }
        (line_no * 7) as i32 - month_base
    }

    /// Day of the month in grid row `line_no`, column `col` (Sunday being 0), if the cell
    /// holds one.
    pub fn day_cell(&self, line_no: u32, col: u32) -> (r: Option<u32>)
        requires
            self.wf(),
            line_no < 6,
            col < 7,
        ensures
            ({
                let d = line_start(self.year as int, self.month as int, line_no as int) + col;
                match r {
                    Some(v) => v == d && 1 <= d <= month_length(self.year as int, self.month as int),
                    None => !(1 <= d <= month_length(self.year as int, self.month as int)),
                }
            }),
    {
        let day = self.calculate_line_start(line_no) + col as i32;
        if day <= 0 || day > self.get_total_days_in_month() as i32 {
            None
        } else {
            Some(day as u32)
        }
    }

    /// Whether `day` of this month is the date `today`, given as (day, month, year).
    pub fn is_today(&self, day: u32, today: (u32, u8, u16)) -> (r: bool)
        ensures
            r == (day == today.0 && self.month == today.1 && self.year == today.2),
    {
        day == today.0 && self.month == today.1 && self.year == today.2
    }
}

/// First day of row `line_no` of the grid of `month` of `year`: row 0 starts on the Sunday
/// on or before the first of the month, whose weekday is `(month_base + 1) % 7`.
pub open spec fn line_start(year: int, month: int, line_no: int) -> int {
    7 * line_no + 1 - (month_base(year, month) + 1) % 7
}

/// Length of the name of month `month` (0-based).
fn month_name_length(month: u8) -> (r: usize)
    requires
        month < 12,
    ensures
        r == month_name_of(month as int).len(),
        r <= 9,
{
    proof {
        reveal_strlit("January");
        reveal_strlit("February");
        reveal_strlit("March");
        reveal_strlit("April");
        reveal_strlit("May");
        reveal_strlit("June");
        reveal_strlit("July");
        reveal_strlit("August");
        reveal_strlit("September");
        reveal_strlit("October");
        reveal_strlit("November");
        reveal_strlit("December");
    }
    match month {
        0 => 7,
        1 => 8,
        2 => 5,
        3 => 5,
        4 => 3,
        5 => 4,
        6 => 4,
        7 => 6,
        8 => 9,
        9 => 7,
        10 => 8,
        _ => 8,
    }
}

} // verus!
