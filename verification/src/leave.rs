use vstd::prelude::*;

use std::collections::HashMap;

use crate::aggregate::{aggregate_leave, has_entry, total_for, LeaveInterval};
use crate::date::Date;
use crate::datetext::{parse_numeric_date, parsed_numeric_date};
use crate::records::{Cell, ParseError};

verus! {

/// Why one leave row is rejected, if it is: too few cells, a non-numeric
/// id cell, a non-text date cell, or a date text the numeric format does
/// not parse.
pub open spec fn leave_row_err(row: Seq<Cell>) -> Option<ParseError> {
    if row.len() < 4 {
        Some(ParseError::MissingField)
    } else if !(row[0] is Num) {
        Some(ParseError::BadNumber)
    } else if !(row[2] is Text) {
        Some(ParseError::BadText)
    } else if !(row[3] is Text) {
        Some(ParseError::BadText)
    } else if parsed_numeric_date(row[2]->Text_0@) is None {
        Some(ParseError::BadDate)
    } else if parsed_numeric_date(row[3]->Text_0@) is None {
        Some(ParseError::BadDate)
    } else {
        None
    }
}

/// The date a parsed year-month-day triple stands for.
pub open spec fn date_of_parts(p: (int, int, int)) -> Date {
    Date { year: p.0 as i32, month: p.1 as u32, day: p.2 as u32 }
}

/// The leave interval one well-formed leave row stands for.
pub open spec fn leave_interval_of(row: Seq<Cell>) -> LeaveInterval {
    LeaveInterval {
        emp_id: row[0]->Num_0,
        from: date_of_parts(parsed_numeric_date(row[2]->Text_0@)->0),
        to: date_of_parts(parsed_numeric_date(row[3]->Text_0@)->0),
    }
}

/// The leave intervals of the first `upto` rows, the header row left out.
pub open spec fn leave_seq_upto(rows: Seq<Vec<Cell>>, upto: int) -> Seq<LeaveInterval> {
    if upto <= 1 {
        Seq::empty()
    } else {
        rows.subrange(1, upto).map_values(|row: Vec<Cell>| leave_interval_of(row@))
    }
}

/// The leave intervals of all data rows.
pub open spec fn leave_seq(rows: Seq<Vec<Cell>>) -> Seq<LeaveInterval> {
    leave_seq_upto(rows, rows.len() as int)
}

/// Parses the leave table and aggregates it: row 0 is a header; every
/// further row holds a numeric employee id and two dates in day-month-year
/// numeric form. The first malformed row aborts the parse; otherwise the
/// rows' intervals are clipped to the target month and summed per
/// employee.
pub fn parse_leave_data(rows: &Vec<Vec<Cell>>, current_month: u32) -> (r: Result<
    HashMap<i32, i128>,
    ParseError,
>)
    requires
        1 <= current_month <= 12,
    ensures
        r is Ok <==> (forall|i: int| 1 <= i < rows@.len() ==> leave_row_err(rows@[i]@) is None),
        r is Ok ==> (forall|e: i32| #[trigger]
            r->Ok_0@.contains_key(e) <==> has_entry(leave_seq(rows@), e, current_month as int)),
        r is Ok ==> (forall|e: i32| #[trigger]
            r->Ok_0@.contains_key(e) ==> r->Ok_0@[e] == total_for(
                leave_seq(rows@),
                e,
                current_month as int,
            )),
        r is Err ==> (exists|k: int|
            1 <= k < rows@.len() && leave_row_err(rows@[k]@) == Some(r->Err_0) && (forall|j: int|
                1 <= j < k ==> leave_row_err(#[trigger] rows@[j]@) is None)),
{
    let mut ivs: Vec<LeaveInterval> = Vec::new();
    let n = rows.len();
    if n == 0 {
        proof {
            assert(leave_seq(rows@) =~= ivs@);
        }
        let m = aggregate_leave(&ivs, current_month);
        return Ok(m);
    }
    let mut i: usize = 1;
    while i < n
        invariant
            1 <= i <= n,
            n == rows@.len(),
            1 <= current_month <= 12,
            forall|j: int| 1 <= j < i ==> leave_row_err(#[trigger] rows@[j]@) is None,
            ivs@ == leave_seq_upto(rows@, i as int),
            forall|k: int| 0 <= k < ivs@.len() ==> (#[trigger] ivs@[k]).wf(),
        decreases n - i,
    {
        let row = &rows[i];
        if row.len() < 4 {
            return Err(ParseError::MissingField);
        }
        let emp_id: i32 = match &row[0] {
            Cell::Num(v) => *v,
            _ => {
                return Err(ParseError::BadNumber);
            },
        };
        let from_text: &String = match &row[2] {
            Cell::Text(t) => t,
            _ => {
                return Err(ParseError::BadText);
            },
        };
        let to_text: &String = match &row[3] {
            Cell::Text(t) => t,
            _ => {
                return Err(ParseError::BadText);
            },
        };
        let from = match parse_numeric_date(from_text.as_str()) {
            Some((y, m, d)) => Date { year: y, month: m, day: d },
            None => {
                return Err(ParseError::BadDate);
            },
        };
        let to = match parse_numeric_date(to_text.as_str()) {
            Some((y, m, d)) => Date { year: y, month: m, day: d },
            None => {
                return Err(ParseError::BadDate);
            },
        };
        let iv = LeaveInterval { emp_id, from, to };
        proof {
            assert(iv == leave_interval_of(rows@[i as int]@));
            assert(rows@.subrange(1, i + 1) =~= rows@.subrange(1, i as int).push(
                rows@[i as int],
            ));
            assert(leave_seq_upto(rows@, i + 1) =~= leave_seq_upto(rows@, i as int).push(
                leave_interval_of(rows@[i as int]@),
            ));
        }
        ivs.push(iv);
        i = i + 1;
    }
    proof {
        assert(leave_seq(rows@) == ivs@);
    }
    let m = aggregate_leave(&ivs, current_month);
    Ok(m)
}

} // verus!
