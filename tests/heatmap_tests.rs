use cchecker::calendar::CivilDate;
use cchecker::heatmap::{build_matrices, build_year_matrix, daily_count, heatmap_from_timestamps, parse_commit_dates, YearMatrix};

fn date(year: i32, month: u32, day: u32) -> CivilDate {
    CivilDate { year, month, day }
}

fn total(m: &YearMatrix) -> u64 {
    m.cells.iter().sum()
}

#[test]
fn two_days_in_current_year() {
    let events = vec![date(2024, 1, 1), date(2024, 1, 1), date(2024, 1, 2)];
    let r = build_matrices(&events, date(2024, 6, 1));
    assert_eq!(r.len(), 1);
    let m = &r[0];
    assert_eq!(m.year, 2024);
    assert_eq!(m.cell(0, 0), 2);
    assert_eq!(m.cell(1, 0), 1);
    assert_eq!(total(m), 3);
    assert_eq!(m.cells.len(), 7 * 53);
}

#[test]
fn past_year_walk_overwrites_first_monday() {
    // 2024 is leap: the 365-day walk ends on Monday 2024-12-30, which is in
    // ISO week 1 of 2025 and so writes its own (empty) count into week 0.
    let events = vec![date(2024, 1, 1), date(2024, 1, 1), date(2024, 1, 2)];
    let r = build_matrices(&events, date(2026, 10, 19));
    assert_eq!(r.len(), 1);
    assert_eq!(r[0].cell(0, 0), 0);
    assert_eq!(r[0].cell(1, 0), 1);
    assert_eq!(r[0].max_week, 51);
}

#[test]
fn years_descending_and_only_with_events() {
    let events = vec![date(2019, 5, 5), date(2023, 3, 1), date(2021, 7, 7), date(2023, 3, 2)];
    let r = build_matrices(&events, date(2026, 10, 19));
    let years: Vec<i32> = r.iter().map(|m| m.year).collect();
    assert_eq!(years, vec![2023, 2021, 2019]);
}

#[test]
fn no_events_no_years() {
    let r = build_matrices(&Vec::new(), date(2026, 10, 19));
    assert!(r.is_empty());
}

#[test]
fn same_day_events_collapse_into_one_cell() {
    // 2023-03-01 is a Wednesday in ISO week 9.
    let events = vec![date(2023, 3, 1); 5];
    let r = build_matrices(&events, date(2026, 10, 19));
    assert_eq!(r[0].cell(2, 8), 5);
    assert_eq!(total(&r[0]), 5);
}

#[test]
fn sum_matches_events_in_range() {
    let events = vec![date(2023, 2, 14), date(2023, 2, 14), date(2023, 6, 30), date(2023, 11, 11)];
    let r = build_matrices(&events, date(2026, 10, 19));
    assert_eq!(total(&r[0]), 4);
}

#[test]
fn max_week_of_year_starting_in_week_fifty_three() {
    // 2021-01-01 is a Friday of ISO week 53 of 2020.
    let m = build_year_matrix(&vec![date(2021, 1, 1)], 2021, date(2026, 10, 19));
    assert_eq!(m.cell(4, 52), 1);
    assert_eq!(m.max_week, 52);
}

#[test]
fn max_week_is_last_day_column() {
    // 2023: Sunday 2023-01-01 is in week 52 of 2022, the walk ends on Sunday
    // 2023-12-31, in week 52 of 2023.
    let m = build_year_matrix(&Vec::new(), 2023, date(2026, 10, 19));
    assert_eq!(m.max_week, 51);
}

#[test]
fn current_year_stops_today() {
    let events = vec![date(2026, 10, 20)];
    let m = build_year_matrix(&events, 2026, date(2026, 10, 19));
    assert_eq!(total(&m), 0);
    // 2026-10-19 is the Monday of ISO week 43.
    assert_eq!(m.max_week, 42);
    let m = build_year_matrix(&events, 2026, date(2026, 10, 20));
    assert_eq!(m.cell(1, 42), 1);
}

#[test]
fn daily_count_counts_equal_dates() {
    let events = vec![date(2022, 1, 1), date(2022, 1, 2), date(2022, 1, 1)];
    assert_eq!(daily_count(&events, date(2022, 1, 1)), 2);
    assert_eq!(daily_count(&events, date(2022, 1, 3)), 0);
}

#[test]
fn malformed_timestamps_are_skipped() {
    let texts = vec![
        "2024-01-01T10:00:00Z".to_string(),
        "not a date".to_string(),
        "2024-01-02T23:30:00-05:00".to_string(),
    ];
    let d = parse_commit_dates(&texts);
    assert_eq!(d, vec![date(2024, 1, 1), date(2024, 1, 2)]);
}

#[test]
fn heatmap_from_texts() {
    let texts = vec!["2024-01-01T10:00:00Z".to_string(), "2024-01-01T12:00:00Z".to_string()];
    let r = heatmap_from_timestamps(&texts, date(2024, 3, 1));
    assert_eq!(r.len(), 1);
    assert_eq!(r[0].cell(0, 0), 2);
}

#[test]
fn calendar_steps() {
    assert_eq!(date(2024, 2, 28).next(), date(2024, 2, 29));
    assert_eq!(date(2023, 2, 28).next(), date(2023, 3, 1));
    assert_eq!(date(2023, 12, 31).next(), date(2024, 1, 1));
    assert_eq!(date(2024, 12, 31).day_of_year(), 366);
    assert_eq!(date(2023, 3, 1).day_of_year(), 60);
}

#[test]
fn last_day_overwrites_first_day_cell() {
    // 2022-01-01 and 2022-12-31 are both Saturdays of an ISO week 52: the
    // later day's count replaces the earlier one in that cell.
    let r = build_matrices(&vec![date(2022, 1, 1)], date(2026, 10, 19));
    assert_eq!(r.len(), 1);
    assert_eq!(r[0].cell(5, 51), 0);
    assert_eq!(total(&r[0]), 0);
}
