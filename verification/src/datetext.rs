use vstd::prelude::*;

use crate::date::valid_date;

verus! {

/// The date, as year, month and day, that the numeric day-month-year
/// format yields for a text, if any: what `NaiveDate::parse_from_str`
/// with the format `"%d-%m-%Y"` returns, a function of the text alone.
pub uninterp spec fn parsed_numeric_date(s: Seq<char>) -> Option<(int, int, int)>;

/// The date, as year, month and day, that the day, abbreviated-month-name
/// and year format yields for a text, if any: what
/// `NaiveDate::parse_from_str` with the format `"%d %b %Y"` returns, a
/// function of the text alone.
pub uninterp spec fn parsed_posted_date(s: Seq<char>) -> Option<(int, int, int)>;

/// Relies on chrono::NaiveDate::parse_from_str with format "%d-%m-%Y".
/// The parse depends on the text alone, and every NaiveDate is a valid
/// proleptic Gregorian date whose year chrono keeps within about
/// -262143..=262142.
#[verifier::external_body]
pub(crate) fn parse_numeric_date(s: &str) -> (r: Option<(i32, u32, u32)>)
    ensures
        r is Some <==> parsed_numeric_date(s@) is Some,
        r is Some ==> {
            let (y, m, d) = r->0;
            &&& parsed_numeric_date(s@) == Some((y as int, m as int, d as int))
            &&& valid_date(y as int, m as int, d as int)
        },
{
    match chrono::NaiveDate::parse_from_str(s, "%d-%m-%Y") {
        Ok(nd) => Some(
            (chrono::Datelike::year(&nd), chrono::Datelike::month(&nd), chrono::Datelike::day(&nd)),
        ),
        Err(_) => None,
    }
}

/// Relies on chrono::NaiveDate::parse_from_str with format "%d %b %Y".
/// The parse depends on the text alone, and every NaiveDate is a valid
/// proleptic Gregorian date whose year chrono keeps within about
/// -262143..=262142.
#[verifier::external_body]
pub(crate) fn parse_posted_date(s: &str) -> (r: Option<(i32, u32, u32)>)
    ensures
        r is Some <==> parsed_posted_date(s@) is Some,
        r is Some ==> {
            let (y, m, d) = r->0;
            &&& parsed_posted_date(s@) == Some((y as int, m as int, d as int))
            &&& valid_date(y as int, m as int, d as int)
        },
{
    match chrono::NaiveDate::parse_from_str(s, "%d %b %Y") {
        Ok(nd) => Some(
            (chrono::Datelike::year(&nd), chrono::Datelike::month(&nd), chrono::Datelike::day(&nd)),
        ),
        Err(_) => None,
    }
}

} // verus!
