//! Consolidates an employee roster, a department directory, monthly
//! salary postings and monthly leave intervals into one report row per
//! employee. The heart of the library is the month-windowed leave
//! aggregation: each leave interval is clipped to the reporting month and
//! the clipped day counts are summed per employee; the joiner then
//! resolves departments, salary status and leave days by employee id,
//! defaulting every miss, and the renderer writes the fixed delimited
//! format.

use vstd::prelude::*;

pub mod aggregate;
pub mod clip;
pub mod date;
pub mod datetext;
pub mod join;
pub mod leave;
pub mod numtext;
pub mod parse;
pub mod records;
pub mod render;
pub mod salary;
pub mod split;

pub use aggregate::{
    aggregate_leave, lemma_aggregate_commutative, lemma_untouched_employee_has_no_entry,
    LeaveInterval,
};
pub use clip::{clip_to_month, lemma_clip_inside, lemma_clip_outside, lemma_clip_straddle};
pub use date::Date;
pub use join::join;
pub use leave::parse_leave_data;
pub use numtext::{i128_to_string, i32_to_string, parse_i32};
pub use parse::{parse_department_data, parse_employee_data, parse_employee_line, split_on_char};
pub use records::{Cell, Department, Employee, ParseError, ReportRow};
pub use render::{generate_output, header_line, lemma_render_round_trip, render_row};
pub use salary::parse_salary_data;

verus! {

} // verus!

