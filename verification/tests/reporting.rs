use std::collections::HashMap;

use emp_report::{
    generate_output, header_line, i128_to_string, i32_to_string, join, parse_department_data,
    parse_employee_data, parse_employee_line, parse_i32, parse_leave_data, parse_salary_data,
    render_row, split_on_char, Cell, Department, Employee, ParseError, ReportRow,
};

fn text(s: &str) -> Cell {
    Cell::Text(String::from(s))
}

#[test]
fn parse_i32_accepts_plain_integers() {
    assert_eq!(parse_i32("0"), Some(0));
    assert_eq!(parse_i32("123"), Some(123));
    assert_eq!(parse_i32("-45"), Some(-45));
    assert_eq!(parse_i32("+7"), Some(7));
    assert_eq!(parse_i32("2147483647"), Some(2147483647));
    assert_eq!(parse_i32("-2147483648"), Some(-2147483648));
}

#[test]
fn parse_i32_rejects_everything_else() {
    assert_eq!(parse_i32(""), None);
    assert_eq!(parse_i32("-"), None);
    assert_eq!(parse_i32("+"), None);
    assert_eq!(parse_i32("12a"), None);
    assert_eq!(parse_i32(" 12"), None);
    assert_eq!(parse_i32("2147483648"), None);
    assert_eq!(parse_i32("-2147483649"), None);
    assert_eq!(parse_i32("99999999999999999999999"), None);
}

#[test]
fn int_rendering_is_decimal() {
    assert_eq!(i32_to_string(0), "0");
    assert_eq!(i32_to_string(42), "42");
    assert_eq!(i32_to_string(-123), "-123");
    assert_eq!(i32_to_string(i32::MIN), "-2147483648");
    assert_eq!(i128_to_string(0), "0");
    assert_eq!(i128_to_string(i128::MIN), "-170141183460469231731687303715884105728");
}

#[test]
fn split_keeps_empty_fields() {
    let fields = split_on_char("a|b||c", '|');
    assert_eq!(fields, vec!["a", "b", "", "c"]);
    let lone = split_on_char("", '|');
    assert_eq!(lone, vec![""]);
    let trailing = split_on_char("x|", '|');
    assert_eq!(trailing, vec!["x", ""]);
}

#[test]
fn employee_line_parses_five_fields() {
    let e = parse_employee_line("1|Alice|10|555-0100|alice@example.com").unwrap();
    assert_eq!(e.emp_id, 1);
    assert_eq!(e.emp_name, "Alice");
    assert_eq!(e.dept_id, 10);
    assert_eq!(e.mobile_no, "555-0100");
    assert_eq!(e.email, "alice@example.com");
}

#[test]
fn employee_line_errors() {
    assert_eq!(parse_employee_line("1|Alice|10|555").unwrap_err(), ParseError::MissingField);
    assert_eq!(parse_employee_line("x|Alice|10|555|a@b").unwrap_err(), ParseError::BadNumber);
    assert_eq!(parse_employee_line("1|Alice|ten|555|a@b").unwrap_err(), ParseError::BadNumber);
}

#[test]
fn employee_data_skips_header() {
    let lines = vec![
        String::from("Emp ID|Emp Name|Dept ID|Mobile No|Email"),
        String::from("1|Alice|10|555-0100|alice@example.com"),
        String::from("2|Bob|20|555-0101|bob@example.com"),
    ];
    let es = parse_employee_data(&lines).unwrap();
    assert_eq!(es.len(), 2);
    assert_eq!(es[0].emp_name, "Alice");
    assert_eq!(es[1].emp_id, 2);

    let empty: Vec<String> = Vec::new();
    assert_eq!(parse_employee_data(&empty).unwrap().len(), 0);
}

#[test]
fn department_rows_build_keyed_map() {
    let rows = vec![
        vec![text("Dept ID"), text("Dept Title")],
        vec![Cell::Num(10), text("Engineering")],
        vec![Cell::Num(20), text("Sales")],
        vec![Cell::Num(10), text("Research")],
    ];
    let m = parse_department_data(&rows).unwrap();
    assert_eq!(m.len(), 2);
    // A later row with the same id wins.
    assert_eq!(m.get(&10).unwrap().dept_title, "Research");
    assert_eq!(m.get(&20).unwrap().dept_title, "Sales");
}

#[test]
fn department_row_errors() {
    let short = vec![vec![text("h"), text("h")], vec![Cell::Num(1)]];
    assert_eq!(parse_department_data(&short).unwrap_err(), ParseError::MissingField);
    let bad_id = vec![vec![text("h"), text("h")], vec![text("x"), text("T")]];
    assert_eq!(parse_department_data(&bad_id).unwrap_err(), ParseError::BadNumber);
    let bad_title = vec![vec![text("h"), text("h")], vec![Cell::Num(1), Cell::Num(2)]];
    assert_eq!(parse_department_data(&bad_title).unwrap_err(), ParseError::BadText);
}

#[test]
fn salary_rows_filter_on_posting_month() {
    let rows = vec![
        vec![text("h"), text("h"), text("h"), text("h"), text("h")],
        vec![Cell::Num(1), Cell::Empty, text("Jun 2024"), Cell::Empty, text("Credited")],
        vec![Cell::Num(2), Cell::Empty, text("May 2024"), Cell::Empty, text("Credited")],
    ];
    let m = parse_salary_data(&rows, 6).unwrap();
    assert_eq!(m.len(), 1);
    assert_eq!(m.get(&1).unwrap(), "Credited");
    assert_eq!(m.get(&2), None);
}

#[test]
fn salary_duplicate_posting_last_wins() {
    let rows = vec![
        vec![text("h")],
        vec![Cell::Num(1), Cell::Empty, text("Jun 2024"), Cell::Empty, text("Pending")],
        vec![Cell::Num(1), Cell::Empty, text("Jun 2024"), Cell::Empty, text("Credited")],
    ];
    let m = parse_salary_data(&rows, 6).unwrap();
    assert_eq!(m.get(&1).unwrap(), "Credited");
}

#[test]
fn salary_row_errors() {
    let bad_date = vec![vec![text("h")], vec![
        Cell::Num(1),
        Cell::Empty,
        text("Pluto 2024"),
        Cell::Empty,
        text("Credited"),
    ]];
    assert_eq!(parse_salary_data(&bad_date, 6).unwrap_err(), ParseError::BadDate);
    let bad_id = vec![vec![text("h")], vec![
        text("one"),
        Cell::Empty,
        text("Jun 2024"),
        Cell::Empty,
        text("Credited"),
    ]];
    assert_eq!(parse_salary_data(&bad_id, 6).unwrap_err(), ParseError::BadNumber);
}

#[test]
fn leave_rows_are_clipped_and_summed() {
    let rows = vec![
        vec![text("h"), text("h"), text("h"), text("h")],
        vec![Cell::Num(1), Cell::Empty, text("20-05-2024"), text("10-06-2024")],
        vec![Cell::Num(1), Cell::Empty, text("25-06-2024"), text("26-06-2024")],
        vec![Cell::Num(2), Cell::Empty, text("01-05-2024"), text("31-07-2024")],
        vec![Cell::Num(3), Cell::Empty, text("01-01-2024"), text("31-01-2024")],
    ];
    let m = parse_leave_data(&rows, 6).unwrap();
    assert_eq!(m.get(&1), Some(&12));
    assert_eq!(m.get(&2), Some(&30));
    assert_eq!(m.get(&3), None);
    assert_eq!(m.len(), 2);
}

#[test]
fn leave_row_errors() {
    let bad_date = vec![vec![text("h")], vec![
        Cell::Num(1),
        Cell::Empty,
        text("2024-06-01"),
        text("10-06-2024"),
    ]];
    assert_eq!(parse_leave_data(&bad_date, 6).unwrap_err(), ParseError::BadDate);
    let short = vec![vec![text("h")], vec![Cell::Num(1)]];
    assert_eq!(parse_leave_data(&short, 6).unwrap_err(), ParseError::MissingField);
    let bad_cell = vec![vec![text("h")], vec![
        Cell::Num(1),
        Cell::Empty,
        Cell::Num(20240601),
        text("10-06-2024"),
    ]];
    assert_eq!(parse_leave_data(&bad_cell, 6).unwrap_err(), ParseError::BadText);
}

fn employee(id: i32, name: &str, dept: i32) -> Employee {
    Employee {
        emp_id: id,
        emp_name: String::from(name),
        dept_id: dept,
        mobile_no: String::from("555"),
        email: String::from("e@x"),
    }
}

#[test]
fn join_is_total_and_order_preserving() {
    let employees = vec![employee(1, "Alice", 10), employee(2, "Bob", 99), employee(3, "Cara", 10)];
    let mut departments: HashMap<i32, Department> = HashMap::new();
    departments.insert(10, Department { dept_id: 10, dept_title: String::from("Engineering") });
    let mut salaries: HashMap<i32, String> = HashMap::new();
    salaries.insert(2, String::from("Credited"));
    let mut leaves: HashMap<i32, i128> = HashMap::new();
    leaves.insert(3, 4);

    let rows = join(&employees, &departments, &salaries, &leaves);
    assert_eq!(rows.len(), 3);
    assert_eq!(rows[0].emp_name, "Alice");
    assert_eq!(rows[0].dept_title, "Engineering");
    assert_eq!(rows[0].salary_status, "Not Credited");
    assert_eq!(rows[0].leave_days, 0);
    assert_eq!(rows[1].dept_title, "Unknown");
    assert_eq!(rows[1].salary_status, "Credited");
    assert_eq!(rows[2].leave_days, 4);
}

#[test]
fn unmatched_employee_gets_all_defaults() {
    let employees = vec![employee(42, "Solo", 7)];
    let departments: HashMap<i32, Department> = HashMap::new();
    let salaries: HashMap<i32, String> = HashMap::new();
    let leaves: HashMap<i32, i128> = HashMap::new();
    let lines = generate_output(&employees, &departments, &salaries, &leaves);
    assert_eq!(lines.len(), 2);
    assert_eq!(lines[1], "42~#~Solo~#~Unknown~#~555~#~e@x~#~Not Credited~#~0");
}

#[test]
fn header_has_fixed_columns() {
    assert_eq!(
        header_line(),
        "Emp ID~#~Emp Name~#~Dept Title~#~Mobile No~#~Email~#~Salary Status~#~On Leave"
    );
}

#[test]
fn rendered_line_splits_back_into_seven_fields() {
    let row = ReportRow {
        emp_id: 17,
        emp_name: String::from("Ada L."),
        dept_title: String::from("R&D"),
        mobile_no: String::from("555-0something"),
        email: String::from("ada@example.com"),
        salary_status: String::from("Credited"),
        leave_days: -3,
    };
    let line = render_row(&row);
    let fields: Vec<&str> = line.split("~#~").collect();
    assert_eq!(fields.len(), 7);
    assert_eq!(fields[0], "17");
    assert_eq!(fields[1], "Ada L.");
    assert_eq!(fields[2], "R&D");
    assert_eq!(fields[3], "555-0something");
    assert_eq!(fields[4], "ada@example.com");
    assert_eq!(fields[5], "Credited");
    assert_eq!(fields[6], "-3");
}

#[test]
fn whole_report_in_input_order() {
    let lines = vec![
        String::from("Emp ID|Emp Name|Dept ID|Mobile No|Email"),
        String::from("2|Bob|20|555-0101|bob@example.com"),
        String::from("1|Alice|10|555-0100|alice@example.com"),
    ];
    let employees = parse_employee_data(&lines).unwrap();
    let dept_rows = vec![vec![text("h"), text("h")], vec![Cell::Num(10), text("Engineering")]];
    let departments = parse_department_data(&dept_rows).unwrap();
    let salary_rows = vec![vec![text("h")], vec![
        Cell::Num(2),
        Cell::Empty,
        text("Jun 2024"),
        Cell::Empty,
        text("Credited"),
    ]];
    let salaries = parse_salary_data(&salary_rows, 6).unwrap();
    let leave_rows = vec![vec![text("h")], vec![
        Cell::Num(1),
        Cell::Empty,
        text("20-05-2024"),
        text("10-06-2024"),
    ]];
    let leaves = parse_leave_data(&leave_rows, 6).unwrap();

    let out = generate_output(&employees, &departments, &salaries, &leaves);
    assert_eq!(out.len(), 3);
    assert_eq!(
        out[0],
        "Emp ID~#~Emp Name~#~Dept Title~#~Mobile No~#~Email~#~Salary Status~#~On Leave"
    );
    assert_eq!(out[1], "2~#~Bob~#~Unknown~#~555-0101~#~bob@example.com~#~Credited~#~0");
    assert_eq!(out[2], "1~#~Alice~#~Engineering~#~555-0100~#~alice@example.com~#~Not Credited~#~10");
}
