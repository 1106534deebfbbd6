use vstd::prelude::*;

use std::collections::HashMap;

use crate::datetext::{parse_posted_date, parsed_posted_date};
use crate::records::{Cell, ParseError};

verus! {

broadcast use vstd::std_specs::hash::group_hash_axioms;

/// The posted-date text of a salary row, prefixed with a first-of-month
/// day so that the day, month-name and year format applies.
pub open spec fn prefixed_date_text(s: Seq<char>) -> Seq<char> {
    seq!['0', '1', ' '] + s
}

/// The month number a salary row's posted date carries.
pub open spec fn salary_month(row: Seq<Cell>) -> int {
    (parsed_posted_date(prefixed_date_text(row[2]->Text_0@))->0).1
}

/// Why one salary row is rejected, if it is. The status cell is read
/// only when the posting month is the target month, so it is checked
/// only then.
pub open spec fn salary_row_err(row: Seq<Cell>, t: int) -> Option<ParseError> {
    if row.len() < 3 {
        Some(ParseError::MissingField)
    } else if !(row[0] is Num) {
        Some(ParseError::BadNumber)
    } else if !(row[2] is Text) {
        Some(ParseError::BadText)
    } else if parsed_posted_date(prefixed_date_text(row[2]->Text_0@)) is None {
        Some(ParseError::BadDate)
    } else if salary_month(row) == t && row.len() < 5 {
        Some(ParseError::MissingField)
    } else if salary_month(row) == t && !(row[4] is Text) {
        Some(ParseError::BadText)
    } else {
        None
    }
}

/// Salary status texts keyed by employee id after the first `upto` rows:
/// only rows posted in the target month are kept, and a later row for the
/// same employee overrides an earlier one.
pub open spec fn salary_map_spec(rows: Seq<Vec<Cell>>, t: int, upto: int) -> Map<i32, Seq<char>>
    decreases upto,
{
    if upto <= 1 {
        Map::empty()
    } else {
        let m = salary_map_spec(rows, t, upto - 1);
        let row = rows[upto - 1]@;
        if salary_month(row) == t {
            m.insert(row[0]->Num_0, row[4]->Text_0@)
        } else {
            m
        }
    }
}

/// Parses the salary postings: row 0 is a header; every further row holds
/// a numeric employee id, a posted date in day, month-name and year form,
/// and a status text. Only postings of the target month are retained, the
/// last one read winning per employee. The first malformed row aborts the
/// parse.
pub fn parse_salary_data(rows: &Vec<Vec<Cell>>, current_month: u32) -> (r: Result<
    HashMap<i32, String>,
    ParseError,
>)
    ensures
        r is Ok <==> (forall|i: int|
            1 <= i < rows@.len() ==> salary_row_err(rows@[i]@, current_month as int) is None),
        r is Ok ==> {
            let vm = salary_map_spec(rows@, current_month as int, rows@.len() as int);
            &&& r->Ok_0@.dom() == vm.dom()
            &&& forall|k: i32| #[trigger] vm.contains_key(k) ==> r->Ok_0@[k]@ == vm[k]
        },
        r is Err ==> (exists|k: int|
            1 <= k < rows@.len() && salary_row_err(rows@[k]@, current_month as int) == Some(
                r->Err_0,
            ) && (forall|j: int|
                1 <= j < k ==> salary_row_err(#[trigger] rows@[j]@, current_month as int) is None)),
{
    let ghost t: int = current_month as int;
    let mut m: HashMap<i32, String> = HashMap::new();
    let n = rows.len();
    if n == 0 {
        proof {
            assert(m@.dom() =~= salary_map_spec(rows@, t, rows@.len() as int).dom());
        }
        return Ok(m);
    }
    let mut i: usize = 1;
    while i < n
        invariant
            1 <= i <= n,
            n == rows@.len(),
            t == current_month as int,
            vstd::std_specs::hash::obeys_key_model::<i32>(),
            forall|j: int| 1 <= j < i ==> salary_row_err(#[trigger] rows@[j]@, t) is None,
            m@.dom() == salary_map_spec(rows@, t, i as int).dom(),
            forall|k: i32| #[trigger]
                salary_map_spec(rows@, t, i as int).contains_key(k) ==> m@[k]@ == salary_map_spec(
                    rows@,
                    t,
                    i as int,
                )[k],
        decreases n - i,
    {
        let row = &rows[i];
        if row.len() < 3 {
            return Err(ParseError::MissingField);
        }
        let emp_id: i32 = match &row[0] {
            Cell::Num(v) => *v,
            _ => {
                return Err(ParseError::BadNumber);
            },
        };
        let date_text: &String = match &row[2] {
            Cell::Text(s) => s,
            _ => {
                return Err(ParseError::BadText);
            },
        };
        proof {
            reveal_strlit("01 ");
        }
        let mut full = String::from_str("01 ");
        full.append(date_text.as_str());
        proof {
            assert(full@ =~= prefixed_date_text(rows@[i as int]@[2]->Text_0@));
        }
        let month: u32 = match parse_posted_date(full.as_str()) {
            Some((_y, mo, _d)) => mo,
            None => {
                return Err(ParseError::BadDate);
            },
        };
        if month == current_month {
            if row.len() < 5 {
                return Err(ParseError::MissingField);
            }
            let status: String = match &row[4] {
                Cell::Text(s) => s.clone(),
                _ => {
                    return Err(ParseError::BadText);
                },
            };
            m.insert(emp_id, status);
        }
        proof {
            assert(m@.dom() =~= salary_map_spec(rows@, t, i + 1).dom());
        }
        i = i + 1;
    }
    Ok(m)
}

} // verus!
