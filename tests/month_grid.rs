use month_grid::calendar::{generate_month, get_week_day, get_week_days, month_name, Weekday, MAX_YEAR};
use month_grid::grid::{
    build_month_grid, get_first_days_of_next_month, get_last_days_of_prev_month, insert_days,
    load_calendar, next_month, previous_month, roll_month, GridCell, InvalidDate, MonthKey,
};

fn days(cells: &[GridCell]) -> Vec<u32> {
    cells.iter().map(|c| c.day).collect()
}

fn current_count(cells: &[GridCell]) -> usize {
    cells.iter().filter(|c| c.in_current_month).count()
}

#[test]
fn leap_year_february_lengths() {
    assert_eq!(generate_month(2024, 2), 29);
    assert_eq!(generate_month(2023, 2), 28);
    assert_eq!(generate_month(2000, 2), 29);
    assert_eq!(generate_month(1900, 2), 28);
}

#[test]
fn month_lengths_of_a_common_year() {
    let expected = [31, 28, 31, 30, 31, 30, 31, 31, 30, 31, 30, 31];
    for (i, n) in expected.iter().enumerate() {
        assert_eq!(generate_month(2023, i as u32 + 1), *n);
    }
}

#[test]
fn december_rolls_over_to_january() {
    let dec = MonthKey { year: 2024, month: 12 };
    assert!(load_calendar(dec.year, dec.month).len() % 7 == 0);
    assert_eq!(next_month(dec), MonthKey { year: 2025, month: 1 });
    assert_eq!(next_month(MonthKey { year: 2024, month: 3 }), MonthKey { year: 2024, month: 4 });
}

#[test]
fn roll_month_normalizes_both_ends() {
    assert_eq!(roll_month(2024, 13), MonthKey { year: 2025, month: 1 });
    assert_eq!(roll_month(2024, 0), MonthKey { year: 2023, month: 12 });
    assert_eq!(roll_month(2024, 7), MonthKey { year: 2024, month: 7 });
    assert_eq!(previous_month(2024, 1), MonthKey { year: 2023, month: 12 });
    assert_eq!(previous_month(2024, 5), MonthKey { year: 2024, month: 4 });
}

#[test]
fn february_2024_grid() {
    let cells = load_calendar(2024, 2);
    assert_eq!(cells.len(), 35);
    assert_eq!(&days(&cells[..4]), &[28, 29, 30, 31]);
    assert!(cells[..4].iter().all(|c| !c.in_current_month));
    assert_eq!(days(&cells[4..33]), (1..=29).collect::<Vec<u32>>());
    assert!(cells[4..33].iter().all(|c| c.in_current_month));
    assert_eq!(&days(&cells[33..]), &[1, 2]);
    assert!(cells[33..].iter().all(|c| !c.in_current_month));
}

#[test]
fn february_2023_grid() {
    let cells = load_calendar(2023, 2);
    assert_eq!(cells.len(), 35);
    assert_eq!(&days(&cells[..3]), &[29, 30, 31]);
    assert_eq!(days(&cells[3..31]), (1..=28).collect::<Vec<u32>>());
    assert_eq!(&days(&cells[31..]), &[1, 2, 3, 4]);
    assert_eq!(current_count(&cells), 28);
}

#[test]
fn grids_hold_whole_weeks() {
    for year in [1u64, 1900, 2000, 2015, 2023, 2024, 2100, MAX_YEAR] {
        for month in 1..=12u32 {
            let cells = load_calendar(year, month);
            assert_eq!(cells.len() % 7, 0);
            assert!(cells.len() >= 28 && cells.len() <= 42);
            assert_eq!(current_count(&cells) as u64, generate_month(year, month));
        }
    }
}

#[test]
fn six_week_and_four_week_pages() {
    // March 2024 starts on a Friday and has 31 days.
    assert_eq!(load_calendar(2024, 3).len(), 42);
    // February 2015 starts on a Sunday and has 28 days.
    let feb = load_calendar(2015, 2);
    assert_eq!(feb.len(), 28);
    assert_eq!(feb[0], GridCell { day: 1, in_current_month: true });
}

#[test]
fn padding_matches_weekdays() {
    for (year, month) in [(2024u64, 2u32), (2023, 2), (2024, 9), (2025, 1)] {
        let cells = load_calendar(year, month);
        let lead = cells.iter().position(|c| c.in_current_month).unwrap();
        let first = get_week_day(year, month, 1).num_days_from_sunday() as usize;
        assert_eq!(lead % 7, first % 7);
        let n = generate_month(year, month);
        let trail = cells.len() - lead - n as usize;
        let last = get_week_day(year, month, n as u32).num_days_from_sunday() as usize;
        assert_eq!((trail + last) % 7, 6);
    }
}

#[test]
fn january_borrows_from_previous_december() {
    // January 2025 starts on a Wednesday.
    let cells = load_calendar(2025, 1);
    assert_eq!(&days(&cells[..3]), &[29, 30, 31]);
}

#[test]
fn weekdays_of_known_dates() {
    assert_eq!(get_week_day(2024, 2, 1), Weekday::Thu);
    assert_eq!(get_week_day(2024, 2, 29), Weekday::Thu);
    assert_eq!(get_week_day(2023, 2, 1), Weekday::Wed);
    assert_eq!(get_week_day(2023, 2, 28), Weekday::Tue);
    assert_eq!(get_week_day(1, 1, 1), Weekday::Mon);
}

#[test]
fn padding_counts_per_weekday() {
    assert_eq!(get_last_days_of_prev_month(Weekday::Sun), 0);
    assert_eq!(get_last_days_of_prev_month(Weekday::Thu), 4);
    assert_eq!(get_last_days_of_prev_month(Weekday::Sat), 6);
    assert_eq!(get_first_days_of_next_month(Weekday::Sun), 6);
    assert_eq!(get_first_days_of_next_month(Weekday::Tue), 4);
    assert_eq!(get_first_days_of_next_month(Weekday::Sat), 0);
}

#[test]
fn insert_days_appends_a_run() {
    let mut cells = vec![GridCell { day: 9, in_current_month: true }];
    insert_days(&mut cells, 3, 5, false);
    assert_eq!(days(&cells), vec![9, 5, 6, 7]);
    assert!(cells[1..].iter().all(|c| !c.in_current_month));
    insert_days(&mut cells, 0, 1, true);
    assert_eq!(cells.len(), 4);
}

#[test]
fn invalid_months_are_rejected() {
    assert_eq!(build_month_grid(2024, 0), Err(InvalidDate { year: 2024, month: 0 }));
    assert_eq!(build_month_grid(2024, 13), Err(InvalidDate { year: 2024, month: 13 }));
    assert_eq!(build_month_grid(0, 5), Err(InvalidDate { year: 0, month: 5 }));
    assert!(build_month_grid(MAX_YEAR + 1, 5).is_err());
    assert_eq!(build_month_grid(2024, 2), Ok(load_calendar(2024, 2)));
}

#[test]
fn names_for_headers_and_titles() {
    assert_eq!(
        get_week_days(),
        vec!["Sunday", "Monday", "Tuesday", "Wednesday", "Thursday", "Friday", "Saturday"]
    );
    assert_eq!(month_name(1), "January");
    assert_eq!(month_name(2), "February");
    assert_eq!(month_name(12), "December");
    assert_eq!(Weekday::from_index(3).name(), "Wednesday");
}

