use vstd::prelude::*;

verus! {

/// One employee as read from the roster.
#[derive(Clone, Debug)]
pub struct Employee {
    pub emp_id: i32,
    pub emp_name: String,
    pub dept_id: i32,
    pub mobile_no: String,
    pub email: String,
}

/// One department as read from the directory.
#[derive(Clone, Debug)]
pub struct Department {
    pub dept_id: i32,
    pub dept_title: String,
}

/// One consolidated output row, one per employee.
#[derive(Clone, Debug)]
pub struct ReportRow {
    pub emp_id: i32,
    pub emp_name: String,
    pub dept_title: String,
    pub mobile_no: String,
    pub email: String,
    pub salary_status: String,
    pub leave_days: i128,
}

/// Why a source record was rejected; any of these aborts the run.
#[derive(Clone, Copy, PartialEq, Eq, Structural, Debug)]
pub enum ParseError {
    /// A line or row has fewer fields than the format requires.
    MissingField,
    /// A field that must hold a number holds something else.
    BadNumber,
    /// A cell that must hold text holds something else.
    BadText,
    /// A date field does not parse in its declared format.
    BadDate,
}

/// One spreadsheet cell, reduced to the plain values the logic reads:
/// a whole number, a piece of text, or anything else.
#[derive(Clone, Debug)]
pub enum Cell {
    Num(i32),
    Text(String),
    Empty,
}

} // verus!
