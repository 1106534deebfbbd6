use emp_report::{aggregate_leave, clip_to_month, Date, LeaveInterval};

fn date(y: i32, m: u32, d: u32) -> Date {
    Date::new(y, m, d).expect("valid date")
}

#[test]
fn date_validity() {
    assert!(Date::new(2024, 2, 29).is_some());
    assert!(Date::new(2023, 2, 29).is_none());
    assert!(Date::new(1900, 2, 29).is_none());
    assert!(Date::new(2000, 2, 29).is_some());
    assert!(Date::new(2024, 4, 31).is_none());
    assert!(Date::new(2024, 13, 1).is_none());
    assert!(Date::new(2024, 0, 1).is_none());
    assert!(Date::new(2024, 12, 31).is_some());
}

#[test]
fn day_index_counts_days() {
    let a = date(2024, 2, 28);
    let b = date(2024, 3, 1);
    assert_eq!(b.day_index() - a.day_index(), 2);
    let c = date(2023, 2, 28);
    let d = date(2023, 3, 1);
    assert_eq!(d.day_index() - c.day_index(), 1);
    let e = date(2024, 1, 1);
    let f = date(2025, 1, 1);
    assert_eq!(f.day_index() - e.day_index(), 366);
}

#[test]
fn clip_interval_inside_month() {
    // Target month June: [June 1, June 10] is counted inclusively.
    let r = clip_to_month(&date(2024, 6, 1), &date(2024, 6, 10), 6);
    assert_eq!(r, 10);
}

#[test]
fn clip_single_day() {
    let r = clip_to_month(&date(2024, 6, 5), &date(2024, 6, 5), 6);
    assert_eq!(r, 1);
}

#[test]
fn clip_starts_before_month() {
    // [May 20, June 10] clipped to June gives June 1..=10.
    let r = clip_to_month(&date(2024, 5, 20), &date(2024, 6, 10), 6);
    assert_eq!(r, 10);
}

#[test]
fn clip_ends_after_month() {
    // [June 25, July 10] clipped to June gives June 25..=30.
    let r = clip_to_month(&date(2024, 6, 25), &date(2024, 7, 10), 6);
    assert_eq!(r, 6);
}

#[test]
fn clip_straddles_whole_month() {
    // [May 1, July 31] clipped to June gives the whole of June.
    let r = clip_to_month(&date(2024, 5, 1), &date(2024, 7, 31), 6);
    assert_eq!(r, 30);
}

#[test]
fn clip_outside_month() {
    let r = clip_to_month(&date(2024, 1, 1), &date(2024, 1, 31), 6);
    assert_eq!(r, 0);
}

#[test]
fn clip_compares_months_only() {
    // Endpoint months are compared to the target by month number alone,
    // so an interval spanning a whole year into the same month is counted
    // end to end.
    let r = clip_to_month(&date(2023, 6, 5), &date(2024, 6, 10), 6);
    assert_eq!(r, 372);
}

#[test]
fn clip_december_rolls_into_next_year() {
    // Clipping to December rolls the month boundary over to January of
    // the following year of the end date.
    let r = clip_to_month(&date(2024, 12, 15), &date(2025, 1, 10), 12);
    assert_eq!(r, 382);
}

#[test]
fn aggregate_sums_per_employee() {
    let ivs = vec![
        LeaveInterval { emp_id: 1, from: date(2024, 6, 3), to: date(2024, 6, 4) },
        LeaveInterval { emp_id: 2, from: date(2024, 5, 20), to: date(2024, 6, 10) },
        LeaveInterval { emp_id: 1, from: date(2024, 6, 20), to: date(2024, 6, 21) },
        LeaveInterval { emp_id: 3, from: date(2024, 1, 1), to: date(2024, 1, 31) },
    ];
    let m = aggregate_leave(&ivs, 6);
    assert_eq!(m.get(&1), Some(&4));
    assert_eq!(m.get(&2), Some(&10));
    // An interval that never touches the target month creates no entry.
    assert_eq!(m.get(&3), None);
    assert_eq!(m.len(), 2);
}

#[test]
fn aggregate_is_commutative() {
    let a = LeaveInterval { emp_id: 7, from: date(2024, 6, 1), to: date(2024, 6, 2) };
    let b = LeaveInterval { emp_id: 7, from: date(2024, 5, 28), to: date(2024, 6, 3) };
    let c = LeaveInterval { emp_id: 9, from: date(2024, 6, 29), to: date(2024, 7, 4) };
    let one = aggregate_leave(&vec![a, b, c], 6);
    let two = aggregate_leave(&vec![c, b, a], 6);
    let three = aggregate_leave(&vec![b, c, a], 6);
    assert_eq!(one.get(&7), two.get(&7));
    assert_eq!(one.get(&9), two.get(&9));
    assert_eq!(one.get(&7), three.get(&7));
    assert_eq!(one.get(&9), three.get(&9));
    assert_eq!(one.len(), two.len());
    assert_eq!(one.len(), three.len());
}

#[test]
fn aggregate_keeps_zero_entry_for_touching_interval() {
    // An interval that touches the month with a degenerate span still
    // creates its entry, as the clipper counted it.
    let ivs = vec![LeaveInterval { emp_id: 5, from: date(2024, 6, 10), to: date(2024, 6, 10) }];
    let m = aggregate_leave(&ivs, 6);
    assert_eq!(m.get(&5), Some(&1));
}
