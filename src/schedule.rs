//! Show days: which broadcast a briefing is for, given the moment it is prepared.
//! Moments are day numbers and seconds, so the schedule is plain arithmetic;
//! chrono only converts calendar dates to day numbers and formats them.

use vstd::prelude::*;
use crate::briefing::BriefingGenerator;
use crate::calendar::{civil_day_number, day_number_of, format_moment, formatted, gregorian_day_number};
use crate::text::same_text;

verus! {

/// A moment in UTC: the day, counted as chrono counts days from the common era
/// (1 January of year 1 is day 1, a Monday), and the second within that day.
#[derive(Debug, Clone, Copy, PartialEq, Eq, Structural)]
pub struct UtcMoment {
    pub day: i32,
    pub second: u32,
}

impl UtcMoment {
    /// The moment lies on or after 1 January of year 1.
    pub open spec fn wf(self) -> bool {
        self.day >= 1 && self.second < 86400
    }

    /// Day of the week, Monday being 0.
    pub open spec fn spec_weekday(self) -> int {
        (self.day - 1) % 7
    }

    /// Hour of the day.
    pub open spec fn spec_hour(self) -> int {
        self.second as int / 3600
    }

    /// The moment at `hour:minute:second` on the given calendar day; none when
    /// the date or time does not exist or lies before year 1.
    pub fn from_ymd_hms(year: i32, month: u32, day: u32, hour: u32, minute: u32, second: u32) -> (r: Option<UtcMoment>)
        ensures
            match r {
                Some(m) => m.wf() && civil_day_number(year as int, month as int, day as int) == Some(m.day as int)
                    && m.day as int == gregorian_day_number(year as int, month as int, day as int)
                    && m.second == hour * 3600 + minute * 60 + second,
                None => !(hour < 24 && minute < 60 && second < 60)
                    || !(civil_day_number(year as int, month as int, day as int) matches Some(n) && n >= 1),
            },
    {
        if !(hour < 24 && minute < 60 && second < 60) {
            return None;
        }
        match day_number_of(year, month, day) {
            Some(n) => if n >= 1 {
                Some(UtcMoment { day: n, second: hour * 3600 + minute * 60 + second })
            } else {
                None
            },
            None => None,
        }
    }

    pub fn weekday(&self) -> (r: u32)
        requires
            self.wf(),
        ensures
            r == self.spec_weekday(),
            r < 7,
    {
        ((self.day - 1) as u32) % 7
    }

    pub fn hour(&self) -> (r: u32)
        ensures
            r == self.spec_hour(),
    {
        self.second / 3600
    }
}

/// How a show day is written, such as `Tue, 3 February 2026`.
pub const SHOW_DAY_FORMAT: &'static str = "%a, %-d %B %Y";

/// Weekday (Monday 0) and the hour after which that day's show has passed.
pub open spec fn show_schedule(show_name: Seq<char>) -> (int, int) {
    if show_name == "This Week in Tech"@ {
        (6, 18)
    } else if show_name == "MacBreak Weekly"@ {
        (1, 14)
    } else if show_name == "Intelligent Machines"@ {
        (2, 18)
    } else {
        (6, 18)
    }
}

fn schedule_of(show_name: &str) -> (r: (u32, u32))
    ensures
        r.0 as int == show_schedule(show_name@).0,
        r.1 as int == show_schedule(show_name@).1,
{
    if same_text(show_name, "This Week in Tech") {
        (6, 18)
    } else if same_text(show_name, "MacBreak Weekly") {
        (1, 14)
    } else if same_text(show_name, "Intelligent Machines") {
        (2, 18)
    } else {
        (6, 18)
    }
}

/// Days from weekday `current` at `hour` until the next show on weekday `target`:
/// today before the cutoff, a week on after it.
pub open spec fn days_until_show(current: int, hour: int, target: int, cutoff: int) -> int {
    if current == target {
        if hour >= cutoff { 7 } else { 0 }
    } else if current < target {
        target - current
    } else {
        7 - (current - target)
    }
}

impl BriefingGenerator {
    /// The moment of the next show of `show_name` from `from_date`: the same time
    /// of day on the show's weekday, this week unless the cutoff has passed.
    pub fn next_show_datetime(show_name: &str, from_date: UtcMoment) -> (r: UtcMoment)
        requires
            from_date.wf(),
            from_date.day <= i32::MAX - 7,
        ensures
            r.wf(),
            r.second == from_date.second,
            r.day == from_date.day + days_until_show(
                from_date.spec_weekday(),
                from_date.spec_hour(),
                show_schedule(show_name@).0,
                show_schedule(show_name@).1,
            ),
    {
        let (target, cutoff) = schedule_of(show_name);
        let current = from_date.weekday();
        let hour = from_date.hour();
        let days: u32 = if current == target {
            if hour >= cutoff { 7 } else { 0 }
        } else if current < target {
            target - current
        } else {
            7 - (current - target)
        };
        UtcMoment { day: from_date.day + days as i32, second: from_date.second }
    }

    /// The next show's day written like `Tue, 3 February 2026`; empty when the day is
    /// beyond the calendar's range.
    pub fn calculate_next_show_date(show_name: &str, from_date: UtcMoment) -> (r: String)
        requires
            from_date.wf(),
            from_date.day <= i32::MAX - 7,
        ensures
            r@ == match formatted(next_show_day(show_name@, from_date), 0, SHOW_DAY_FORMAT@) {
                Some(l) => l,
                None => Seq::empty(),
            },
    {
        let next = Self::next_show_datetime(show_name, from_date);
        match format_moment(next.day, 0, SHOW_DAY_FORMAT) {
            Some(l) => l,
            None => String::new(),
        }
    }
}

/// Day number of the next show.
pub open spec fn next_show_day(show_name: Seq<char>, from_date: UtcMoment) -> int {
    from_date.day + days_until_show(
        from_date.spec_weekday(),
        from_date.spec_hour(),
        show_schedule(show_name).0,
        show_schedule(show_name).1,
    )
}

/// The next show is never more than a week away, and falls on the show's weekday.
pub proof fn lemma_next_show_within_a_week(show_name: Seq<char>, from_date: UtcMoment)
    requires
        from_date.wf(),
    ensures
        from_date.day <= next_show_day(show_name, from_date) <= from_date.day + 7,
        (next_show_day(show_name, from_date) - 1) % 7 == show_schedule(show_name).0,
{
}

} // verus!
