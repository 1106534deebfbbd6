use vstd::prelude::*;

use crate::date::{day_index_of, day_index_ymd, days_in_month_spec, lemma_month_length, Date};

verus! {

/// Bound on the magnitude of any clipped day count.
pub const CLIP_ABS_BOUND: i64 = 300_000_001;

/// Day index of the first day of the month after month `t` of year `y`,
/// rolling over to January of the next year after December.
pub open spec fn first_of_next_month_index(y: int, t: int) -> int {
    if t == 12 {
        day_index_ymd(y + 1, 1, 1)
    } else {
        day_index_ymd(y, t + 1, 1)
    }
}

/// Whether the interval `[from, to]` touches the target month `t` at all:
/// an endpoint lies in month `t`, or the interval's months straddle it.
/// Only touching intervals contribute an aggregate entry.
pub open spec fn touches_month(from: Date, to: Date, t: int) -> bool {
    ||| from.month == t
    ||| to.month == t
    ||| (from.month < t && t < to.month)
}

/// Days of the interval `[from, to]` that are counted for the target month
/// `t`. Endpoints are compared to the target by month number alone; the
/// first day of the target month is constructed in `to`'s year when an
/// endpoint or the whole month must be substituted.
pub open spec fn clip_spec(from: Date, to: Date, t: int) -> int {
    if from.month == t && to.month == t {
        to.index_spec() - from.index_spec() + 1
    } else if from.month == t || to.month == t {
        let start = if from.month == t {
            from.index_spec()
        } else {
            day_index_ymd(to.year as int, t, 1)
        };
        if to.month == t {
            to.index_spec() - start + 1
        } else {
            first_of_next_month_index(to.year as int, t) - start
        }
    } else if from.month < t && t < to.month {
        first_of_next_month_index(to.year as int, t) - day_index_ymd(to.year as int, t, 1)
    } else {
        0
    }
}

/// Clips the closed interval `[from, to]` to the target month `target`:
/// returns the number of leave days counted for that month.
pub fn clip_to_month(from: &Date, to: &Date, target: u32) -> (r: i64)
    requires
        from.wf(),
        to.wf(),
        1 <= target <= 12,
    ensures
        r == clip_spec(*from, *to, target as int),
        -CLIP_ABS_BOUND <= r <= CLIP_ABS_BOUND,
{
    let from_in = from.month == target;
    let to_in = to.month == target;
    if from_in && to_in {
        to.day_index() - from.day_index() + 1
    } else if from_in || to_in {
        let start: i64 = if from_in {
            from.day_index()
        } else {
            day_index_of(to.year, target, 1)
        };
        if to_in {
            to.day_index() - start + 1
        } else {
            let end: i64 = if target == 12 {
                day_index_of(to.year + 1, 1, 1)
            } else {
                day_index_of(to.year, target + 1, 1)
            };
            end - start
        }
    } else if from.month < target && target < to.month {
        let end: i64 = if target == 12 {
            day_index_of(to.year + 1, 1, 1)
        } else {
            day_index_of(to.year, target + 1, 1)
        };
        let start: i64 = day_index_of(to.year, target, 1);
        end - start
    } else {
        0
    }
}

/// An interval that lies inside the target month of one year is counted
/// with both endpoints: its inclusive day count.
pub proof fn lemma_clip_inside(from: Date, to: Date, t: int)
    requires
        from.wf(),
        to.wf(),
        from.year == to.year,
        from.month == t,
        to.month == t,
    ensures
        clip_spec(from, to, t) == to.day - from.day + 1,
{
}

/// An interval that does not touch the target month is clipped to nothing.
pub proof fn lemma_clip_outside(from: Date, to: Date, t: int)
    requires
        !touches_month(from, to, t),
    ensures
        clip_spec(from, to, t) == 0,
{
}

/// An interval whose months straddle the target month is counted as the
/// full length of the target month, in `to`'s year.
pub proof fn lemma_clip_straddle(from: Date, to: Date, t: int)
    requires
        from.wf(),
        to.wf(),
        from.month < t,
        t < to.month,
    ensures
        clip_spec(from, to, t) == days_in_month_spec(to.year as int, t),
{
    lemma_month_length(to.year as int, t);
}

} // verus!
