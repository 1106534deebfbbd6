use vstd::prelude::*;

use std::collections::HashMap;

use crate::numtext::{i32_literal_ok, int_literal_value, parse_i32};
use crate::records::{Cell, Department, Employee, ParseError};
use crate::split::{is_delim_at, split_go, split_spec};

verus! {

broadcast use vstd::std_specs::hash::group_hash_axioms;

/// Splits `s` on the single-character delimiter `c`; the result always
/// holds one field more than there are delimiter occurrences.
pub fn split_on_char(s: &str, c: char) -> (fields: Vec<String>)
    ensures
        fields@.map_values(|f: String| f@) == split_spec(s@, seq![c]),
{
    let ghost d = seq![c];
    let len = s.unicode_len();
    let mut fields: Vec<String> = Vec::new();
    let mut cur = String::new();
    let mut i: usize = 0;
    proof {
        assert(s@.skip(0) =~= s@);
        assert(fields@.map_values(|f: String| f@) =~= Seq::<Seq<char>>::empty());
        assert(Seq::<Seq<char>>::empty() + split_go(s@, d, cur@) =~= split_go(s@, d, cur@));
    }
    while i < len
        invariant
            0 <= i <= len,
            len == s@.len(),
            d == seq![c],
            split_spec(s@, d) == fields@.map_values(|f: String| f@) + split_go(
                s@.skip(i as int),
                d,
                cur@,
            ),
        decreases len - i,
    {
        let ch = s.get_char(i);
        let ghost rem = s@.skip(i as int);
        proof {
            assert(rem[0] == s@[i as int]);
            assert(rem.skip(1) =~= s@.skip(i + 1));
        }
        if ch == c {
            proof {
                assert(is_delim_at(rem, 0, d)) by {
                    assert(rem.subrange(0, 1) =~= d);
                }
                assert(split_go(rem, d, cur@) == seq![cur@] + split_go(
                    rem.skip(1),
                    d,
                    Seq::empty(),
                ));
            }
            let ghost fields_pre = fields@;
            fields.push(cur);
            cur = String::new();
            proof {
                assert(fields@.map_values(|f: String| f@) =~= fields_pre.map_values(
                    |f: String| f@,
                ) + seq![fields@.last()@]);
            }
        } else {
            proof {
                assert(!is_delim_at(rem, 0, d)) by {
                    if is_delim_at(rem, 0, d) {
                        assert(rem.subrange(0, 1)[0] == rem[0]);
                    }
                }
                assert(split_go(rem, d, cur@) == split_go(rem.skip(1), d, cur@.push(rem[0])));
            }
            let ghost cur_pre = cur@;
            let piece = s.substring_char(i, i + 1);
            cur.append(piece);
            proof {
                assert(cur@ =~= cur_pre.push(s@[i as int]));
            }
        }
        i = i + 1;
    }
    proof {
        assert(s@.skip(len as int).len() == 0);
        assert(!is_delim_at(s@.skip(len as int), 0, d));
        assert(split_go(s@.skip(len as int), d, cur@) == seq![cur@]);
    }
    let ghost fields_pre = fields@;
    fields.push(cur);
    proof {
        assert(fields@.map_values(|f: String| f@) =~= fields_pre.map_values(|f: String| f@)
            + seq![fields@.last()@]);
    }
    fields
}

/// Why one roster line is rejected, if it is: too few fields, or a
/// malformed numeric id.
pub open spec fn employee_line_err(s: Seq<char>) -> Option<ParseError> {
    let fs = split_spec(s, seq!['|']);
    if fs.len() < 5 {
        Some(ParseError::MissingField)
    } else if !i32_literal_ok(fs[0]) || !i32_literal_ok(fs[2]) {
        Some(ParseError::BadNumber)
    } else {
        None
    }
}

/// The roster line parses.
pub open spec fn employee_line_ok(s: Seq<char>) -> bool {
    employee_line_err(s) is None
}

/// The employee record read from one roster line.
pub open spec fn employee_matches_line(e: Employee, s: Seq<char>) -> bool {
    let fs = split_spec(s, seq!['|']);
    &&& e.emp_id == int_literal_value(fs[0])
    &&& e.emp_name@ == fs[1]
    &&& e.dept_id == int_literal_value(fs[2])
    &&& e.mobile_no@ == fs[3]
    &&& e.email@ == fs[4]
}

/// Parses one roster line: five fields split on `|`, with numeric ids in
/// the first and third field.
pub fn parse_employee_line(line: &str) -> (r: Result<Employee, ParseError>)
    ensures
        r is Ok <==> employee_line_ok(line@),
        r is Ok ==> employee_matches_line(r->Ok_0, line@),
        r is Err ==> employee_line_err(line@) == Some(r->Err_0),
{
    let fields = split_on_char(line, '|');
    proof {
        assert(fields@.map_values(|f: String| f@).len() == fields@.len());
    }
    if fields.len() < 5 {
        return Err(ParseError::MissingField);
    }
    let id = match parse_i32(fields[0].as_str()) {
        Some(v) => v,
        None => {
            return Err(ParseError::BadNumber);
        },
    };
    let dept = match parse_i32(fields[2].as_str()) {
        Some(v) => v,
        None => {
            return Err(ParseError::BadNumber);
        },
    };
    Ok(
        Employee {
            emp_id: id,
            emp_name: fields[1].clone(),
            dept_id: dept,
            mobile_no: fields[3].clone(),
            email: fields[4].clone(),
        },
    )
}

/// Parses the employee roster: the first line is a header, every further
/// line is one employee. The first malformed line aborts the parse.
pub fn parse_employee_data(lines: &Vec<String>) -> (r: Result<Vec<Employee>, ParseError>)
    ensures
        r is Ok <==> (forall|i: int| 1 <= i < lines@.len() ==> employee_line_ok(lines@[i]@)),
        r is Ok ==> r->Ok_0@.len() == if lines@.len() == 0 {
            0int
        } else {
            lines@.len() - 1
        },
        r is Ok ==> (forall|i: int|
            0 <= i < r->Ok_0@.len() ==> employee_matches_line(
                #[trigger] r->Ok_0@[i],
                lines@[i + 1]@,
            )),
        r is Err ==> (exists|k: int|
            1 <= k < lines@.len() && employee_line_err(lines@[k]@) == Some(r->Err_0) && (forall|
                j: int,
            |
                1 <= j < k ==> employee_line_ok(#[trigger] lines@[j]@))),
{
    let mut out: Vec<Employee> = Vec::new();
    let n = lines.len();
    if n == 0 {
        return Ok(out);
    }
    let mut i: usize = 1;
    while i < n
        invariant
            1 <= i <= n,
            n == lines@.len(),
            out@.len() == i - 1,
            forall|j: int| 1 <= j < i ==> employee_line_ok(#[trigger] lines@[j]@),
            forall|j: int|
                0 <= j < out@.len() ==> employee_matches_line(#[trigger] out@[j], lines@[j + 1]@),
        decreases n - i,
    {
        match parse_employee_line(lines[i].as_str()) {
            Ok(e) => {
                out.push(e);
            },
            Err(pe) => {
                return Err(pe);
            },
        }
        i = i + 1;
    }
    Ok(out)
}

/// Why one department row is rejected, if it is: too few cells, a
/// non-numeric id cell, or a non-text title cell.
pub open spec fn dept_row_err(row: Seq<Cell>) -> Option<ParseError> {
    if row.len() < 2 {
        Some(ParseError::MissingField)
    } else if !(row[0] is Num) {
        Some(ParseError::BadNumber)
    } else if !(row[1] is Text) {
        Some(ParseError::BadText)
    } else {
        None
    }
}

/// Department titles keyed by id after the first `upto` rows, a later
/// row with the same id overriding an earlier one.
pub open spec fn dept_map_spec(rows: Seq<Vec<Cell>>, upto: int) -> Map<i32, Seq<char>>
    decreases upto,
{
    if upto <= 1 {
        Map::empty()
    } else {
        dept_map_spec(rows, upto - 1).insert(
            rows[upto - 1]@[0]->Num_0,
            rows[upto - 1]@[1]->Text_0@,
        )
    }
}

/// Parses the department directory: row 0 is a header; every further row
/// holds a numeric id cell and a text title cell. The first malformed row
/// aborts the parse; duplicate ids keep the last title read.
pub fn parse_department_data(rows: &Vec<Vec<Cell>>) -> (r: Result<
    HashMap<i32, Department>,
    ParseError,
>)
    ensures
        r is Ok <==> (forall|i: int| 1 <= i < rows@.len() ==> dept_row_err(rows@[i]@) is None),
        r is Ok ==> {
            let vm = dept_map_spec(rows@, rows@.len() as int);
            &&& r->Ok_0@.dom() == vm.dom()
            &&& forall|k: i32| #[trigger]
                vm.contains_key(k) ==> r->Ok_0@[k].dept_id == k && r->Ok_0@[k].dept_title@
                    == vm[k]
        },
        r is Err ==> (exists|k: int|
            1 <= k < rows@.len() && dept_row_err(rows@[k]@) == Some(r->Err_0) && (forall|j: int|
                1 <= j < k ==> dept_row_err(#[trigger] rows@[j]@) is None)),
{
    let mut m: HashMap<i32, Department> = HashMap::new();
    let n = rows.len();
    if n == 0 {
        proof {
            assert(m@.dom() =~= dept_map_spec(rows@, rows@.len() as int).dom());
        }
        return Ok(m);
    }
    let mut i: usize = 1;
    while i < n
        invariant
            1 <= i <= n,
            n == rows@.len(),
            vstd::std_specs::hash::obeys_key_model::<i32>(),
            forall|j: int| 1 <= j < i ==> dept_row_err(#[trigger] rows@[j]@) is None,
            m@.dom() == dept_map_spec(rows@, i as int).dom(),
            forall|k: i32| #[trigger]
                dept_map_spec(rows@, i as int).contains_key(k) ==> m@[k].dept_id == k
                    && m@[k].dept_title@ == dept_map_spec(rows@, i as int)[k],
        decreases n - i,
    {
        let row = &rows[i];
        if row.len() < 2 {
            return Err(ParseError::MissingField);
        }
        let id: i32 = match &row[0] {
            Cell::Num(v) => *v,
            _ => {
                return Err(ParseError::BadNumber);
            },
        };
        let title: String = match &row[1] {
            Cell::Text(t) => t.clone(),
            _ => {
                return Err(ParseError::BadText);
            },
        };
        m.insert(id, Department { dept_id: id, dept_title: title });
        proof {
            assert(m@.dom() =~= dept_map_spec(rows@, i + 1).dom());
        }
        i = i + 1;
    }
    proof {
        assert(m@.dom() =~= dept_map_spec(rows@, rows@.len() as int).dom());
    }
    Ok(m)
}

} // verus!
