//! The library's own calendar timestamp: plain year/month/day and
//! hour/minute/second fields with a Gregorian validity invariant, ordered
//! lexicographically, together with the verified textual renderings the
//! site needs (zero-padded day-month-year dates and RFC-822-style
//! feed dates, including the weekday computed from the civil date).

use vstd::prelude::*;
use vstd::string::StringExecFns;
use crate::text::{pad2, pad4, pad2_str, pad4_str};

verus! {

/// A civil timestamp, second precision, proleptic Gregorian calendar.
#[derive(Clone, Copy, PartialEq, Eq, Structural, Debug)]
pub struct DateTime {
    pub year: u32,
    pub month: u32,
    pub day: u32,
    pub hour: u32,
    pub minute: u32,
    pub second: u32,
}

pub open spec fn spec_is_leap(y: int) -> bool {
    y % 4 == 0 && (y % 100 != 0 || y % 400 == 0)
}

pub open spec fn spec_days_in_month(y: int, m: int) -> int {
    if m == 2 {
        if spec_is_leap(y) {
            29
        } else {
            28
        }
    } else if m == 4 || m == 6 || m == 9 || m == 11 {
        30
    } else {
        31
    }
}

impl DateTime {
    /// The validity invariant: a real calendar date with in-range clock fields.
    pub open spec fn wf(self) -> bool {
        &&& 1 <= self.year <= 9999
        &&& 1 <= self.month <= 12
        &&& 1 <= self.day <= spec_days_in_month(self.year as int, self.month as int)
        &&& self.hour <= 23
        &&& self.minute <= 59
        &&& self.second <= 59
    }

    /// Strict lexicographic order on (year, month, day, hour, minute, second).
    pub open spec fn spec_lt(self, o: DateTime) -> bool {
        if self.year != o.year {
            self.year < o.year
        } else if self.month != o.month {
            self.month < o.month
        } else if self.day != o.day {
            self.day < o.day
        } else if self.hour != o.hour {
            self.hour < o.hour
        } else if self.minute != o.minute {
            self.minute < o.minute
        } else {
            self.second < o.second
        }
    }

    pub fn new(year: u32, month: u32, day: u32, hour: u32, minute: u32, second: u32) -> (r:
        DateTime)
        ensures
            r == (DateTime { year, month, day, hour, minute, second }),
    {
        DateTime { year, month, day, hour, minute, second }
    }

    /// Runtime check of the validity invariant, for values built from
    /// unverified input.
    pub fn check(&self) -> (r: bool)
        ensures
            r == self.wf(),
    {
        let dim: u32 = if self.month == 2 {
            let leap = self.year % 4 == 0 && (self.year % 100 != 0 || self.year % 400 == 0);
            if leap {
                29
            } else {
                28
            }
        } else if self.month == 4 || self.month == 6 || self.month == 9 || self.month == 11 {
            30
        } else {
            31
        };
        1 <= self.year && self.year <= 9999 && 1 <= self.month && self.month <= 12 && 1 <= self.day
            && self.day <= dim && self.hour <= 23 && self.minute <= 59 && self.second <= 59
    }

    pub fn lt(&self, o: &DateTime) -> (r: bool)
        ensures
            r == self.spec_lt(*o),
    {
        if self.year != o.year {
            self.year < o.year
        } else if self.month != o.month {
            self.month < o.month
        } else if self.day != o.day {
            self.day < o.day
        } else if self.hour != o.hour {
            self.hour < o.hour
        } else if self.minute != o.minute {
            self.minute < o.minute
        } else {
            self.second < o.second
        }
    }
}

/// Zeller's congruence over the Gregorian calendar: 0 stands for Saturday,
/// 1 for Sunday, and so on through 6 for Friday.
pub open spec fn spec_weekday_index(y: int, m: int, d: int) -> int {
    let zm = if m < 3 {
        m + 12
    } else {
        m
    };
    let zy = if m < 3 {
        y - 1
    } else {
        y
    };
    let k = zy % 100;
    let j = zy / 100;
    (d + 13 * (zm + 1) / 5 + k + k / 4 + j / 4 + 5 * j) % 7
}

pub open spec fn weekday_abbrev(w: int) -> Seq<char> {
    if w == 0 {
        seq!['S', 'a', 't']
    } else if w == 1 {
        seq!['S', 'u', 'n']
    } else if w == 2 {
        seq!['M', 'o', 'n']
    } else if w == 3 {
        seq!['T', 'u', 'e']
    } else if w == 4 {
        seq!['W', 'e', 'd']
    } else if w == 5 {
        seq!['T', 'h', 'u']
    } else {
        seq!['F', 'r', 'i']
    }
}

pub open spec fn month_abbrev(m: int) -> Seq<char> {
    if m == 1 {
        seq!['J', 'a', 'n']
    } else if m == 2 {
        seq!['F', 'e', 'b']
    } else if m == 3 {
        seq!['M', 'a', 'r']
    } else if m == 4 {
        seq!['A', 'p', 'r']
    } else if m == 5 {
        seq!['M', 'a', 'y']
    } else if m == 6 {
        seq!['J', 'u', 'n']
    } else if m == 7 {
        seq!['J', 'u', 'l']
    } else if m == 8 {
        seq!['A', 'u', 'g']
    } else if m == 9 {
        seq!['S', 'e', 'p']
    } else if m == 10 {
        seq!['O', 'c', 't']
    } else if m == 11 {
        seq!['N', 'o', 'v']
    } else {
        seq!['D', 'e', 'c']
    }
}

fn weekday_abbrev_str(w: u32) -> (r: &'static str)
    requires
        w < 7,
    ensures
        r@ =~= weekday_abbrev(w as int),
{
    proof {
        reveal_strlit("Sat");
        reveal_strlit("Sun");
        reveal_strlit("Mon");
        reveal_strlit("Tue");
        reveal_strlit("Wed");
        reveal_strlit("Thu");
        reveal_strlit("Fri");
    }
    match w {
        0 => "Sat",
        1 => "Sun",
        2 => "Mon",
        3 => "Tue",
        4 => "Wed",
        5 => "Thu",
        _ => "Fri",
    }
}

fn month_abbrev_str(m: u32) -> (r: &'static str)
    requires
        1 <= m <= 12,
    ensures
        r@ =~= month_abbrev(m as int),
{
    proof {
        reveal_strlit("Jan");
        reveal_strlit("Feb");
        reveal_strlit("Mar");
        reveal_strlit("Apr");
        reveal_strlit("May");
        reveal_strlit("Jun");
        reveal_strlit("Jul");
        reveal_strlit("Aug");
        reveal_strlit("Sep");
        reveal_strlit("Oct");
        reveal_strlit("Nov");
        reveal_strlit("Dec");
    }
    match m {
        1 => "Jan",
        2 => "Feb",
        3 => "Mar",
        4 => "Apr",
        5 => "May",
        6 => "Jun",
        7 => "Jul",
        8 => "Aug",
        9 => "Sep",
        10 => "Oct",
        11 => "Nov",
        _ => "Dec",
    }
}

impl DateTime {
    pub fn weekday_index(&self) -> (r: u32)
        requires
            self.wf(),
        ensures
            r == spec_weekday_index(self.year as int, self.month as int, self.day as int),
            r < 7,
    {
        let zm: u32 = if self.month < 3 {
            self.month + 12
        } else {
            self.month
        };
        let zy: u32 = if self.month < 3 {
            self.year - 1
        } else {
            self.year
        };
        let k = zy % 100;
        let j = zy / 100;
        (self.day + 13 * (zm + 1) / 5 + k + k / 4 + j / 4 + 5 * j) % 7
    }
}

/// The site's table date: zero-padded day-month-year.
pub open spec fn spec_dmy(dt: DateTime) -> Seq<char> {
    pad2(dt.day as int) + seq!['-'] + pad2(dt.month as int) + seq!['-'] + pad4(dt.year as int)
}

/// The feed's publication date: weekday and day, month name, year, clock,
/// in RFC-822 field order.
pub open spec fn spec_rfc822(dt: DateTime) -> Seq<char> {
    weekday_abbrev(spec_weekday_index(dt.year as int, dt.month as int, dt.day as int)) + seq![
        ',',
        ' ',
    ] + pad2(dt.day as int) + seq![' '] + month_abbrev(dt.month as int) + seq![' '] + pad4(
        dt.year as int,
    ) + seq![' '] + pad2(dt.hour as int) + seq![':'] + pad2(dt.minute as int) + seq![':'] + pad2(
        dt.second as int,
    )
}

impl DateTime {
    pub fn format_dmy(&self) -> (r: String)
        requires
            self.wf(),
        ensures
            r@ == spec_dmy(*self),
    {
        proof {
            reveal_strlit("-");
        }
        let mut s = String::new();
        s.append(pad2_str(self.day).as_str());
        s.append("-");
        s.append(pad2_str(self.month).as_str());
        s.append("-");
        s.append(pad4_str(self.year).as_str());
        proof {
            assert(s@ =~= spec_dmy(*self));
        }
        s
    }

    pub fn format_rfc822(&self) -> (r: String)
        requires
            self.wf(),
        ensures
            r@ == spec_rfc822(*self),
    {
        proof {
            reveal_strlit(", ");
            reveal_strlit(" ");
            reveal_strlit(":");
        }
        let mut s = String::new();
        s.append(weekday_abbrev_str(self.weekday_index()));
        s.append(", ");
        s.append(pad2_str(self.day).as_str());
        s.append(" ");
        s.append(month_abbrev_str(self.month));
        s.append(" ");
        s.append(pad4_str(self.year).as_str());
        s.append(" ");
        s.append(pad2_str(self.hour).as_str());
        s.append(":");
        s.append(pad2_str(self.minute).as_str());
        s.append(":");
        s.append(pad2_str(self.second).as_str());
        proof {
            assert(s@ =~= spec_rfc822(*self));
        }
        s
    }
}


} // verus!
