use vstd::prelude::*;

verus! {

/// Lowest calendar year the library models; every date the library handles
/// lies strictly inside this range, so year arithmetic never leaves it.
pub const MIN_YEAR: i32 = -400_000;

/// Highest calendar year the library models.
pub const MAX_YEAR: i32 = 400_000;

/// A proleptic Gregorian calendar date, held as plain year/month/day numbers.
#[derive(Clone, Copy, PartialEq, Eq, Structural, Debug)]
pub struct Date {
    pub year: i32,
    pub month: u32,
    pub day: u32,
}

/// Gregorian leap-year rule.
pub open spec fn is_leap_year(y: int) -> bool {
    (y % 4 == 0 && y % 100 != 0) || y % 400 == 0
}

/// Number of days in year `y`.
pub open spec fn year_len(y: int) -> int {
    if is_leap_year(y) {
        366
    } else {
        365
    }
}

/// Number of days in month `m` of year `y`.
pub open spec fn days_in_month_spec(y: int, m: int) -> int {
    if m == 2 {
        if is_leap_year(y) {
            29
        } else {
            28
        }
    } else if m == 4 || m == 6 || m == 9 || m == 11 {
        30
    } else {
        31
    }
}

/// Days from the first of January of year `y` to the first of month `m`,
/// exclusive of the latter.
pub open spec fn days_before_month(y: int, m: int) -> int {
    let base: int = if m <= 1 {
        0
    } else if m == 2 {
        31
    } else if m == 3 {
        59
    } else if m == 4 {
        90
    } else if m == 5 {
        120
    } else if m == 6 {
        151
    } else if m == 7 {
        181
    } else if m == 8 {
        212
    } else if m == 9 {
        243
    } else if m == 10 {
        273
    } else if m == 11 {
        304
    } else {
        334
    };
    base + if m >= 3 && is_leap_year(y) {
        1int
    } else {
        0int
    }
}

/// Days from the first of January of `MIN_YEAR` to the first of January of
/// year `y`: the year part of a date's day index.
pub open spec fn days_before_year(y: int) -> int
    decreases y - MIN_YEAR,
{
    if y <= MIN_YEAR {
        0
    } else {
        days_before_year(y - 1) + year_len(y - 1)
    }
}

/// Day index of a date: days elapsed since the first of January of
/// `MIN_YEAR`. Differences of day indexes are exact day distances.
pub open spec fn day_index_ymd(y: int, m: int, d: int) -> int {
    days_before_year(y) + days_before_month(y, m) + d - 1
}

/// A well-formed date: in-range year, real month, day within the month.
pub open spec fn valid_date(y: int, m: int, d: int) -> bool {
    &&& MIN_YEAR <= y <= MAX_YEAR
    &&& 1 <= m <= 12
    &&& 1 <= d <= days_in_month_spec(y, m)
}

impl Date {
    /// Well-formedness of a date value.
    pub open spec fn wf(self) -> bool {
        valid_date(self.year as int, self.month as int, self.day as int)
    }

    /// Day index of this date.
    pub open spec fn index_spec(self) -> int {
        day_index_ymd(self.year as int, self.month as int, self.day as int)
    }

    /// Builds a date after checking the calendar validity of its parts,
    /// rejecting anything that is not a real Gregorian date in range.
    pub fn new(year: i32, month: u32, day: u32) -> (r: Option<Date>)
        ensures
            r is Some <==> valid_date(year as int, month as int, day as int),
            r is Some ==> r->0 == (Date { year, month, day }),
    {
        if MIN_YEAR <= year && year <= MAX_YEAR && 1 <= month && month <= 12 && 1 <= day
            && day <= days_in_month(year, month) {
            Some(Date { year, month, day })
        } else {
            None
        }
    }

    /// Day index of this date, computed by summing year lengths from the
    /// start of the modelled range.
    pub fn day_index(&self) -> (r: i64)
        requires
            self.wf(),
        ensures
            r == self.index_spec(),
            0 <= r <= MAX_DAY_INDEX,
    {
        day_index_of(self.year, self.month, self.day)
    }
}

/// Upper bound on any day index the model can produce.
pub const MAX_DAY_INDEX: i64 = 300_000_000;

/// Leap-year test, shifted into nonnegative range so that machine
/// remainder and mathematical remainder agree.
pub fn leap_year(y: i32) -> (r: bool)
    requires
        MIN_YEAR <= y <= MAX_YEAR + 1,
    ensures
        r == is_leap_year(y as int),
{
    let z: i32 = y + 400_000;
    proof {
        lemma_leap_shift(y as int);
    }
    (z % 4 == 0 && z % 100 != 0) || z % 400 == 0
}

proof fn lemma_leap_shift(y: int)
    ensures
        is_leap_year(y + 400_000) == is_leap_year(y),
{
    assert((y + 400_000) % 4 == y % 4) by {
        vstd::arithmetic::div_mod::lemma_mod_multiples_vanish(100_000, y, 4);
    }
    assert((y + 400_000) % 100 == y % 100) by {
        vstd::arithmetic::div_mod::lemma_mod_multiples_vanish(4_000, y, 100);
    }
    assert((y + 400_000) % 400 == y % 400) by {
        vstd::arithmetic::div_mod::lemma_mod_multiples_vanish(1_000, y, 400);
    }
}

/// Days in month `m` of year `y`.
pub fn days_in_month(y: i32, m: u32) -> (r: u32)
    requires
        MIN_YEAR <= y <= MAX_YEAR + 1,
    ensures
        r == days_in_month_spec(y as int, m as int),
{
    if m == 2 {
        if leap_year(y) {
            29
        } else {
            28
        }
    } else if m == 4 || m == 6 || m == 9 || m == 11 {
        30
    } else {
        31
    }
}

/// Day index from raw parts; accepts one year past `MAX_YEAR` so that the
/// first day of the month after December of `MAX_YEAR` has an index too.
pub fn day_index_of(y: i32, m: u32, d: u32) -> (r: i64)
    requires
        MIN_YEAR <= y <= MAX_YEAR + 1,
        1 <= m <= 12,
        1 <= d <= 31,
    ensures
        r == day_index_ymd(y as int, m as int, d as int),
        0 <= r <= MAX_DAY_INDEX,
{
    let mut acc: i64 = 0;
    let mut yy: i32 = MIN_YEAR;
    while yy < y
        invariant
            MIN_YEAR <= yy <= y <= MAX_YEAR + 1,
            acc == days_before_year(yy as int),
            0 <= acc <= 366 * (yy - MIN_YEAR),
        decreases y - yy,
    {
        let step: i64 = if leap_year(yy) {
            366
        } else {
            365
        };
        proof {
            assert(days_before_year(yy + 1) == days_before_year(yy as int) + year_len(yy as int));
        }
        acc = acc + step;
        yy = yy + 1;
    }
    let before_month: i64 = month_offset(y, m);
    acc + before_month + (d as i64) - 1
}

/// Days before month `m` in year `y`, as executable code.
fn month_offset(y: i32, m: u32) -> (r: i64)
    requires
        MIN_YEAR <= y <= MAX_YEAR + 1,
        1 <= m <= 12,
    ensures
        r == days_before_month(y as int, m as int),
{
    let base: i64 = if m <= 1 {
        0
    } else if m == 2 {
        31
    } else if m == 3 {
        59
    } else if m == 4 {
        90
    } else if m == 5 {
        120
    } else if m == 6 {
        151
    } else if m == 7 {
        181
    } else if m == 8 {
        212
    } else if m == 9 {
        243
    } else if m == 10 {
        273
    } else if m == 11 {
        304
    } else {
        334
    };
    if m >= 3 && leap_year(y) {
        base + 1
    } else {
        base
    }
}

/// From the first of a month to the first of the next month is exactly the
/// length of that month.
pub proof fn lemma_month_length(y: int, m: int)
    requires
        1 <= m <= 11,
    ensures
        day_index_ymd(y, m + 1, 1) - day_index_ymd(y, m, 1) == days_in_month_spec(y, m),
{
}

} // verus!
