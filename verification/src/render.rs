use vstd::prelude::*;

use std::collections::HashMap;

use crate::join::{join, row_matches};
use crate::numtext::{i128_to_string, i32_to_string, int_str, lemma_int_str_no_tilde};
use crate::records::{Department, Employee, ReportRow};
use crate::split::{field_clean, join_with, lemma_split_join, split_spec};

verus! {

broadcast use vstd::std_specs::hash::group_hash_axioms;

/// The field delimiter of the report format.
pub open spec fn delim_spec() -> Seq<char> {
    seq!['~', '#', '~']
}

/// The seven fields of one output line, in column order.
pub open spec fn row_fields(row: ReportRow) -> Seq<Seq<char>> {
    seq![
        int_str(row.emp_id as int),
        row.emp_name@,
        row.dept_title@,
        row.mobile_no@,
        row.email@,
        row.salary_status@,
        int_str(row.leave_days as int),
    ]
}

/// One output line: the seven fields joined by the delimiter.
pub open spec fn line_spec(row: ReportRow) -> Seq<char> {
    join_with(row_fields(row), delim_spec())
}

/// Renders one report row as one delimited line.
pub fn render_row(row: &ReportRow) -> (line: String)
    ensures
        line@ == line_spec(*row),
{
    proof {
        reveal_strlit("~#~");
    }
    let mut line = i32_to_string(row.emp_id);
    line.append("~#~");
    line.append(row.emp_name.as_str());
    line.append("~#~");
    line.append(row.dept_title.as_str());
    line.append("~#~");
    line.append(row.mobile_no.as_str());
    line.append("~#~");
    line.append(row.email.as_str());
    line.append("~#~");
    line.append(row.salary_status.as_str());
    line.append("~#~");
    let days = i128_to_string(row.leave_days);
    line.append(days.as_str());
    proof {
        assert("~#~"@ =~= delim_spec());
        let d = delim_spec();
        let fs = row_fields(*row);
        let s6 = seq![fs[6]];
        let s5 = seq![fs[5], fs[6]];
        let s4 = seq![fs[4], fs[5], fs[6]];
        let s3 = seq![fs[3], fs[4], fs[5], fs[6]];
        let s2 = seq![fs[2], fs[3], fs[4], fs[5], fs[6]];
        let s1 = seq![fs[1], fs[2], fs[3], fs[4], fs[5], fs[6]];
        assert(join_with(s6, d) == fs[6]);
        assert(s5.drop_first() =~= s6);
        assert(join_with(s5, d) == fs[5] + d + join_with(s6, d));
        assert(s4.drop_first() =~= s5);
        assert(join_with(s4, d) == fs[4] + d + join_with(s5, d));
        assert(s3.drop_first() =~= s4);
        assert(join_with(s3, d) == fs[3] + d + join_with(s4, d));
        assert(s2.drop_first() =~= s3);
        assert(join_with(s2, d) == fs[2] + d + join_with(s3, d));
        assert(s1.drop_first() =~= s2);
        assert(join_with(s1, d) == fs[1] + d + join_with(s2, d));
        assert(fs.drop_first() =~= s1);
        assert(join_with(fs, d) == fs[0] + d + join_with(s1, d));
        assert(line@ =~= join_with(fs, d));
    }
    line
}

/// The header line of the report.
pub fn header_line() -> (r: String)
    ensures
        r@ == "Emp ID~#~Emp Name~#~Dept Title~#~Mobile No~#~Email~#~Salary Status~#~On Leave"@,
{
    String::from_str("Emp ID~#~Emp Name~#~Dept Title~#~Mobile No~#~Email~#~Salary Status~#~On Leave")
}

/// The output line owed to one employee, resolved against the three
/// keyed sources with the defaulting policy of the join.
pub open spec fn report_line_spec(
    e: Employee,
    dm: Map<i32, Department>,
    sm: Map<i32, String>,
    lm: Map<i32, i128>,
) -> Seq<char> {
    join_with(
        seq![
            int_str(e.emp_id as int),
            e.emp_name@,
            if dm.contains_key(e.dept_id) {
                dm[e.dept_id].dept_title@
            } else {
                "Unknown"@
            },
            e.mobile_no@,
            e.email@,
            if sm.contains_key(e.emp_id) {
                sm[e.emp_id]@
            } else {
                "Not Credited"@
            },
            int_str(
                if lm.contains_key(e.emp_id) {
                    lm[e.emp_id] as int
                } else {
                    0
                },
            ),
        ],
        delim_spec(),
    )
}

/// Builds the whole report: the header line, then one rendered line per
/// employee in input order, each row joined from the four sources.
pub fn generate_output(
    employees: &Vec<Employee>,
    departments: &HashMap<i32, Department>,
    salaries: &HashMap<i32, String>,
    leaves: &HashMap<i32, i128>,
) -> (lines: Vec<String>)
    ensures
        lines@.len() == employees@.len() + 1,
        lines@[0]@
            == "Emp ID~#~Emp Name~#~Dept Title~#~Mobile No~#~Email~#~Salary Status~#~On Leave"@,
        forall|i: int|
            0 <= i < employees@.len() ==> (#[trigger] lines@[i + 1])@ == report_line_spec(
                employees@[i],
                departments@,
                salaries@,
                leaves@,
            ),
{
    let rows = join(employees, departments, salaries, leaves);
    let mut lines: Vec<String> = Vec::new();
    lines.push(header_line());
    let n = rows.len();
    let mut i: usize = 0;
    while i < n
        invariant
            n == rows@.len(),
            rows@.len() == employees@.len(),
            forall|k: int|
                0 <= k < rows@.len() ==> row_matches(
                    #[trigger] rows@[k],
                    employees@[k],
                    departments@,
                    salaries@,
                    leaves@,
                ),
            0 <= i <= n,
            lines@.len() == i + 1,
            lines@[0]@
                == "Emp ID~#~Emp Name~#~Dept Title~#~Mobile No~#~Email~#~Salary Status~#~On Leave"@,
            forall|k: int|
                0 <= k < i ==> (#[trigger] lines@[k + 1])@ == report_line_spec(
                    employees@[k],
                    departments@,
                    salaries@,
                    leaves@,
                ),
        decreases n - i,
    {
        let line = render_row(&rows[i]);
        proof {
            let e = employees@[i as int];
            assert(row_fields(rows@[i as int]) =~= seq![
                int_str(e.emp_id as int),
                e.emp_name@,
                if departments@.contains_key(e.dept_id) {
                    departments@[e.dept_id].dept_title@
                } else {
                    "Unknown"@
                },
                e.mobile_no@,
                e.email@,
                if salaries@.contains_key(e.emp_id) {
                    salaries@[e.emp_id]@
                } else {
                    "Not Credited"@
                },
                int_str(
                    if leaves@.contains_key(e.emp_id) {
                        leaves@[e.emp_id] as int
                    } else {
                        0
                    },
                ),
            ]);
            assert(line@ == report_line_spec(e, departments@, salaries@, leaves@));
        }
        lines.push(line);
        i = i + 1;
    }
    lines
}

/// Round trip: splitting a rendered line on the delimiter yields exactly
/// the seven fields of the row it was rendered from, provided no text
/// field holds a tilde. A text field holding the delimiter's tilde could
/// open a field boundary of its own and is left out of this law.
pub proof fn lemma_render_round_trip(row: ReportRow)
    requires
        field_clean(row.emp_name@, '~'),
        field_clean(row.dept_title@, '~'),
        field_clean(row.mobile_no@, '~'),
        field_clean(row.email@, '~'),
        field_clean(row.salary_status@, '~'),
    ensures
        split_spec(line_spec(row), delim_spec()) == row_fields(row),
        row_fields(row).len() == 7,
{
    lemma_int_str_no_tilde(row.emp_id as int);
    lemma_int_str_no_tilde(row.leave_days as int);
    lemma_split_join(row_fields(row), delim_spec());
}

} // verus!
