use vstd::prelude::*;

use std::collections::HashMap;

use crate::records::{Department, Employee, ReportRow};

verus! {

broadcast use vstd::std_specs::hash::group_hash_axioms;

/// What the output row of one employee must hold: the employee's own
/// fields, the department title resolved by `dept_id` ("Unknown" on a
/// miss), the salary status resolved by `emp_id` ("Not Credited" on a
/// miss), and the leave days resolved by `emp_id` (0 on a miss).
pub open spec fn row_matches(
    row: ReportRow,
    e: Employee,
    dm: Map<i32, Department>,
    sm: Map<i32, String>,
    lm: Map<i32, i128>,
) -> bool {
    &&& row.emp_id == e.emp_id
    &&& row.emp_name@ == e.emp_name@
    &&& row.mobile_no@ == e.mobile_no@
    &&& row.email@ == e.email@
    &&& row.dept_title@ == if dm.contains_key(e.dept_id) {
        dm[e.dept_id].dept_title@
    } else {
        "Unknown"@
    }
    &&& row.salary_status@ == if sm.contains_key(e.emp_id) {
        sm[e.emp_id]@
    } else {
        "Not Credited"@
    }
    &&& row.leave_days == if lm.contains_key(e.emp_id) {
        lm[e.emp_id]
    } else {
        0i128
    }
}

/// Joins the four sources into one output row per employee. The join is
/// total and order-preserving: every employee yields exactly one row, in
/// input order, and every miss is resolved by a default, never an error.
pub fn join(
    employees: &Vec<Employee>,
    departments: &HashMap<i32, Department>,
    salaries: &HashMap<i32, String>,
    leaves: &HashMap<i32, i128>,
) -> (rows: Vec<ReportRow>)
    ensures
        rows@.len() == employees@.len(),
        forall|i: int|
            0 <= i < rows@.len() ==> row_matches(
                #[trigger] rows@[i],
                employees@[i],
                departments@,
                salaries@,
                leaves@,
            ),
{
    let mut rows: Vec<ReportRow> = Vec::new();
    let n = employees.len();
    let mut i: usize = 0;
    while i < n
        invariant
            n == employees@.len(),
            0 <= i <= n,
            rows@.len() == i,
            vstd::std_specs::hash::obeys_key_model::<i32>(),
            forall|k: int|
                0 <= k < rows@.len() ==> row_matches(
                    #[trigger] rows@[k],
                    employees@[k],
                    departments@,
                    salaries@,
                    leaves@,
                ),
        decreases n - i,
    {
        let e = &employees[i];
        let dept_title: String = match departments.get(&e.dept_id) {
            Some(d) => d.dept_title.clone(),
            None => String::from_str("Unknown"),
        };
        let salary_status: String = match salaries.get(&e.emp_id) {
            Some(s) => s.clone(),
            None => String::from_str("Not Credited"),
        };
        let leave_days: i128 = match leaves.get(&e.emp_id) {
            Some(v) => *v,
            None => 0,
        };
        let row = ReportRow {
            emp_id: e.emp_id,
            emp_name: e.emp_name.clone(),
            dept_title,
            mobile_no: e.mobile_no.clone(),
            email: e.email.clone(),
            salary_status,
            leave_days,
        };
        rows.push(row);
        i = i + 1;
    }
    rows
}

} // verus!
