use vstd::prelude::*;
use crate::calendar::{Calendar, lemma_next_month_base, month_base, month_length};

verus! {

/// Keys that move the selected day of the interactive calendar.
#[derive(Clone, Copy, Debug, PartialEq, Eq, Structural)]
pub enum NavKey {
    /// One day back.
    Left,
    /// One day forward.
    Right,
    /// One week back.
    Up,
    /// One week forward.
    Down,
    /// First day of the month.
    Home,
    /// Last day of the month.
    End,
    /// Same day of the previous month.
    PageUp,
    /// Same day of the next month.
    PageDown,
}

impl NavKey {
    /// Keys that may move the selection into the previous month.
    pub open spec fn may_go_back(self) -> bool {
        self == NavKey::Left || self == NavKey::Up || self == NavKey::PageUp
    }

    /// Keys that may move the selection into the next month.
    pub open spec fn may_go_forward(self) -> bool {
        self == NavKey::Right || self == NavKey::Down || self == NavKey::PageDown
    }
}

/// The day selected in the interactive calendar, with the month shown around it.
#[derive(Clone, Copy, Debug, PartialEq, Eq, Structural)]
pub struct Selection {
    pub year: u16,
    /// Month from 0 (January) to 11.
    pub month: u8,
    /// Day of the month from 1.
    pub day: u32,
}

impl Selection {
    /// The month the selection lies in.
    pub open spec fn cal(&self) -> Calendar {
        Calendar { year: self.year, month: self.month }
    }

    /// Number of days of the selected month.
    pub open spec fn len(&self) -> int {
        month_length(self.year as int, self.month as int)
    }

    /// Day offset of the selected day, counted as `Calendar::get_day_of_week` counts it.
    pub open spec fn absolute_day(&self) -> int {
        month_base(self.year as int, self.month as int) + self.day
    }

    /// A real day of a month that the arithmetic is defined on.
    pub open spec fn wf(&self) -> bool {
        self.cal().wf() && 1 <= self.day <= self.len()
    }

    /// Whether `key` keeps the selection among representable months.
    pub open spec fn can_take(&self, key: NavKey) -> bool {
        &&& key.may_go_back() ==> !(self.year == 1 && self.month == 0)
        &&& key.may_go_forward() ==> !(self.year == u16::MAX && self.month == 11)
    }

    /// The selection after `key`, and whether the month changed (so that the month's events
    /// must be loaded again).
    ///
    /// The arrow keys move the selected day one day (Left, Right) or one week (Up, Down)
    /// back or forward, going on into the neighbouring month past either end of the month.
    /// Page keys keep the day of the month, clamped to the new month's length.
    pub fn step(&self, key: NavKey) -> (r: (Selection, bool))
        requires
            self.wf(),
            self.can_take(key),
        ensures
            r.0.wf(),
            r.1 == (r.0.cal() != self.cal()),
            r.0.cal().index() == self.cal().index() || r.0.cal().index() == self.cal().index() - 1
                || r.0.cal().index() == self.cal().index() + 1,
            key == NavKey::Left ==> r.0.absolute_day() == self.absolute_day() - 1,
            key == NavKey::Right ==> r.0.absolute_day() == self.absolute_day() + 1,
            key == NavKey::Up ==> r.0.absolute_day() == self.absolute_day() - 7,
            key == NavKey::Down ==> r.0.absolute_day() == self.absolute_day() + 7,
            ({
                let s = *self;
                let n = r.0;
                let back = n.cal().index() == s.cal().index() - 1;
                let same = n.cal() == s.cal();
                let fwd = n.cal().index() == s.cal().index() + 1;
                match key {
                    NavKey::Left => if s.day > 1 {
                        same && n.day == s.day - 1
                    } else {
                        back && n.day == n.len()
                    },
                    NavKey::Right => if s.day < s.len() {
                        same && n.day == s.day + 1
                    } else {
                        fwd && n.day == 1
                    },
                    NavKey::Up => if s.day > 7 {
                        same && n.day == s.day - 7
                    } else {
                        back && n.day == n.len() + s.day - 7
                    },
                    NavKey::Down => if s.day + 7 <= s.len() {
                        same && n.day == s.day + 7
                    } else {
                        fwd && n.day == if s.day + 7 - s.len() > n.len() {
                            n.len()
                        } else {
                            s.day + 7 - s.len()
                        }
                    },
                    NavKey::Home => same && n.day == 1,
                    NavKey::End => same && n.day == s.len(),
                    NavKey::PageUp => back && n.day == if s.day > n.len() {
                        n.len()
                    } else {
                        s.day as int
                    },
                    NavKey::PageDown => fwd && n.day == if s.day > n.len() {
                        n.len()
                    } else {
                        s.day as int
                    },
                }
            }),
    {
        let cal = Calendar { year: self.year, month: self.month };
        let total_days = cal.get_total_days_in_month();
        match key {
            NavKey::Left => {
                if self.day > 1 {
                    (Selection { year: self.year, month: self.month, day: self.day - 1 }, false)
                } else {
                    let prev = cal.prev_month();
                    proof {
                        lemma_next_month_base(prev, cal);
                    }
                    let day = prev.get_total_days_in_month();
                    (Selection { year: prev.year, month: prev.month, day }, true)
                }
            },
            NavKey::Right => {
                if self.day < total_days {
                    (Selection { year: self.year, month: self.month, day: self.day + 1 }, false)
                } else {
                    let next = cal.next_month();
                    proof {
                        lemma_next_month_base(cal, next);
                    }
                    (Selection { year: next.year, month: next.month, day: 1 }, true)
                }
            },
            NavKey::Up => {
                if self.day > 7 {
                    (Selection { year: self.year, month: self.month, day: self.day - 7 }, false)
                } else {
                    let prev = cal.prev_month();
                    proof {
                        lemma_next_month_base(prev, cal);
                    }
                    let prev_total = prev.get_total_days_in_month();
                    let day_offset = 7 - self.day;
                    let day = prev_total - day_offset;
                    (Selection { year: prev.year, month: prev.month, day }, true)
                }
            },
            NavKey::Down => {
                if self.day + 7 <= total_days {
                    (Selection { year: self.year, month: self.month, day: self.day + 7 }, false)
                } else {
                    let next = cal.next_month();
                    proof {
                        lemma_next_month_base(cal, next);
                    }
                    let next_total = next.get_total_days_in_month();
                    let mut day = self.day + 7 - total_days;
                    if day > next_total {
                        day = next_total;
                    }
                    (Selection { year: next.year, month: next.month, day }, true)
                }
            },
            NavKey::Home => (Selection { year: self.year, month: self.month, day: 1 }, false),
            NavKey::End => (Selection { year: self.year, month: self.month, day: total_days }, false),
            NavKey::PageUp => {
                let prev = cal.prev_month();
                proof {
                    lemma_next_month_base(prev, cal);
                }
                let prev_total = prev.get_total_days_in_month();
                let day = if self.day > prev_total {
                    prev_total
                } else {
                    self.day
                };
                (Selection { year: prev.year, month: prev.month, day }, true)
            },
            NavKey::PageDown => {
                let next = cal.next_month();
                proof {
                    lemma_next_month_base(cal, next);
                }
                let next_total = next.get_total_days_in_month();
                let day = if self.day > next_total {
                    next_total
                } else {
                    self.day
                };
                (Selection { year: next.year, month: next.month, day }, true)
            },
        }
    }
}

/// How a day cell of the interactive month grid is drawn.
#[derive(Clone, Copy, Debug, PartialEq, Eq, Structural)]
pub enum CellStyle {
    /// The selected day is today.
    SelectedToday,
    /// The selected day.
    Selected,
    /// Today.
    Today,
    /// A day with events.
    Event,
    /// A Sunday.
    Sunday,
    /// Any other day.
    Plain,
}

impl CellStyle {
    /// Whether the cell is drawn in bold: selected days, today and days with events are.
    pub open spec fn is_bold_spec(self) -> bool {
        self == CellStyle::SelectedToday || self == CellStyle::Selected || self == CellStyle::Today
            || self == CellStyle::Event
    }

    /// Whether the cell is drawn in bold: selected days, today and days with events are.
    pub fn is_bold(&self) -> (r: bool)
        ensures
            r == self.is_bold_spec(),
    {
        match self {
            CellStyle::SelectedToday | CellStyle::Selected | CellStyle::Today | CellStyle::Event => true,
            _ => false,
        }
    }
}

/// Style of a day cell: selection and today outrank events, which outrank Sundays (`col` 0).
pub fn cell_style(is_selected: bool, is_today: bool, has_event: bool, col: u32) -> (r: CellStyle)
    ensures
        r == if is_selected && is_today {
            CellStyle::SelectedToday
        } else if is_selected {
            CellStyle::Selected
        } else if is_today {
            CellStyle::Today
        } else if has_event {
            CellStyle::Event
        } else if col == 0 {
            CellStyle::Sunday
        } else {
            CellStyle::Plain
        },
{
    if is_selected && is_today {
        CellStyle::SelectedToday
    } else if is_selected {
        CellStyle::Selected
    } else if is_today {
        CellStyle::Today
    } else if has_event {
        CellStyle::Event
    } else if col == 0 {
        CellStyle::Sunday
    } else {
        CellStyle::Plain
    }
}

} // verus!
