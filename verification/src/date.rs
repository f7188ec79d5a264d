//! The library's model of a due instant: a plain calendar date and a
//! wall-clock time. Validity of a calendar date is decided by chrono;
//! ordering and display are the library's own, fully specified.

use vstd::prelude::*;
use crate::text;

verus! {

/// Smallest year chrono's calendar supports.
pub const MIN_YEAR: i32 = -262143;

/// Largest year chrono's calendar supports.
pub const MAX_YEAR: i32 = 262142;

/// A due instant: proleptic Gregorian calendar date plus wall-clock time,
/// minute resolution (the protocols never read or write seconds).
#[derive(Clone, Copy, PartialEq, Eq, Structural, Debug)]
pub struct DueDate {
    pub year: i32,
    pub month: u8,
    pub day: u8,
    pub hour: u8,
    pub minute: u8,
}

pub open spec fn is_leap_year(y: int) -> bool {
    (y % 4 == 0 && y % 100 != 0) || y % 400 == 0
}

pub open spec fn days_in_month(y: int, m: int) -> int {
    if m == 2 {
        if is_leap_year(y) {
            29
        } else {
            28
        }
    } else if m == 4 || m == 6 || m == 9 || m == 11 {
        30
    } else {
        31
    }
}

/// A real calendar day within chrono's supported range.
pub open spec fn ymd_valid(y: int, m: int, d: int) -> bool {
    &&& MIN_YEAR <= y <= MAX_YEAR
    &&& 1 <= m <= 12
    &&& 1 <= d <= days_in_month(y, m)
}

pub open spec fn hm_valid(h: int, min: int) -> bool {
    0 <= h < 24 && 0 <= min < 60
}

impl DueDate {
    /// A well-formed due instant.
    pub open spec fn valid(self) -> bool {
        ymd_valid(self.year as int, self.month as int, self.day as int) && hm_valid(
            self.hour as int,
            self.minute as int,
        )
    }

    /// Chronological order, decided field by field from year to minute.
    pub open spec fn spec_le(self, other: DueDate) -> bool {
        if self.year != other.year {
            self.year < other.year
        } else if self.month != other.month {
            self.month < other.month
        } else if self.day != other.day {
            self.day < other.day
        } else if self.hour != other.hour {
            self.hour < other.hour
        } else {
            self.minute <= other.minute
        }
    }

    /// Executable chronological comparison.
    pub fn le(&self, other: &DueDate) -> (r: bool)
        ensures
            r == self.spec_le(*other),
    {
        if self.year != other.year {
            self.year < other.year
        } else if self.month != other.month {
            self.month < other.month
        } else if self.day != other.day {
            self.day < other.day
        } else if self.hour != other.hour {
            self.hour < other.hour
        } else {
            self.minute <= other.minute
        }
    }
}

/// Relies on chrono::NaiveDate::from_ymd_opt: it returns `Some` exactly
/// for a month 1..=12, a day from 1 to that month's length in the
/// proleptic Gregorian calendar, and a year within chrono's range.
#[verifier::external_body]
pub(crate) fn ymd_is_valid(year: i32, month: u32, day: u32) -> (r: bool)
    ensures
        r == ymd_valid(year as int, month as int, day as int),
{
    chrono::NaiveDate::from_ymd_opt(year, month, day).is_some()
}

/// Relies on chrono::NaiveTime::from_hms_opt: with a zero second it
/// returns `Some` exactly for an hour below 24 and a minute below 60.
#[verifier::external_body]
pub(crate) fn hm_is_valid(hour: u32, minute: u32) -> (r: bool)
    ensures
        r == hm_valid(hour as int, minute as int),
{
    chrono::NaiveTime::from_hms_opt(hour, minute, 0).is_some()
}

/// The three-letter English name of a month.
pub open spec fn spec_month_name(m: int) -> Seq<char> {
    if m == 1 {
        "Jan"@
    } else if m == 2 {
        "Feb"@
    } else if m == 3 {
        "Mar"@
    } else if m == 4 {
        "Apr"@
    } else if m == 5 {
        "May"@
    } else if m == 6 {
        "Jun"@
    } else if m == 7 {
        "Jul"@
    } else if m == 8 {
        "Aug"@
    } else if m == 9 {
        "Sep"@
    } else if m == 10 {
        "Oct"@
    } else if m == 11 {
        "Nov"@
    } else {
        "Dec"@
    }
}

pub fn month_name(m: u8) -> (r: &'static str)
    requires
        1 <= m <= 12,
    ensures
        r@ == spec_month_name(m as int),
{
    match m {
        1 => "Jan",
        2 => "Feb",
        3 => "Mar",
        4 => "Apr",
        5 => "May",
        6 => "Jun",
        7 => "Jul",
        8 => "Aug",
        9 => "Sep",
        10 => "Oct",
        11 => "Nov",
        _ => "Dec",
    }
}

/// The month whose three-letter name matches, if any.
pub open spec fn spec_month_from_name(s: Seq<char>) -> Option<u8> {
    if exists|m: int| 1 <= m <= 12 && s == spec_month_name(m) {
        Some((choose|m: int| 1 <= m <= 12 && s == spec_month_name(m)) as u8)
    } else {
        None
    }
}

pub fn month_from_name(s: &str) -> (r: Option<u8>)
    ensures
        r == spec_month_from_name(s@),
        r is Some ==> 1 <= r->Some_0 <= 12 && s@ == spec_month_name(r->Some_0 as int),
{
    let mut m: u8 = 1;
    while m <= 12
        invariant
            1 <= m <= 13,
            forall|k: int| 1 <= k < m ==> s@ != spec_month_name(k),
        decreases 13 - m,
    {
        if text::str_eq(s, month_name(m)) {
            proof {
                lemma_month_names_distinct();
                assert(1 <= m as int <= 12 && s@ == spec_month_name(m as int));
                let w = choose|k: int| 1 <= k <= 12 && s@ == spec_month_name(k);
                assert(spec_month_name(w) == spec_month_name(m as int));
            }
            return Some(m);
        }
        m = m + 1;
    }
    None
}

/// The twelve month names differ pairwise (so the name decides the month).
pub proof fn lemma_month_names_distinct()
    ensures
        forall|i: int, j: int|
            1 <= i <= 12 && 1 <= j <= 12 && i != j ==> spec_month_name(i) != spec_month_name(j),
{
    reveal_strlit("Jan");
    reveal_strlit("Feb");
    reveal_strlit("Mar");
    reveal_strlit("Apr");
    reveal_strlit("May");
    reveal_strlit("Jun");
    reveal_strlit("Jul");
    reveal_strlit("Aug");
    reveal_strlit("Sep");
    reveal_strlit("Oct");
    reveal_strlit("Nov");
    reveal_strlit("Dec");
    assert forall|i: int, j: int|
        1 <= i <= 12 && 1 <= j <= 12 && i != j implies spec_month_name(i) != spec_month_name(
        j,
    ) by {
        assert(spec_month_name(i)[0] != spec_month_name(j)[0] || spec_month_name(i)[1]
            != spec_month_name(j)[1] || spec_month_name(i)[2] != spec_month_name(j)[2]);
    }
}

} // verus!
