use clutter::date::Date;
use clutter::task::{Task, TaskError};

fn day(y: i32, m: u32, d: u32) -> Date {
    Date::from_ymd(y, m, d).unwrap()
}

fn fmt() -> String {
    "%Y-%m-%d".to_string()
}

#[test]
fn parses_open_task() {
    let t = Task::from_string("[ ] 2024-03-01: Buy milk", fmt()).unwrap();
    assert_eq!(t.due_date(), day(2024, 3, 1));
    assert_eq!(t.description(), "Buy milk");
    assert!(!t.is_completed());
    assert_eq!(t.date_format(), "%Y-%m-%d");
}

#[test]
fn parses_done_task() {
    let t = Task::from_string("[x] 2024-02-20: Renew passport", fmt()).unwrap();
    assert_eq!(t.due_date(), day(2024, 2, 20));
    assert_eq!(t.description(), "Renew passport");
    assert!(t.is_completed());
}

#[test]
fn marker_x_anywhere_and_case_sensitive() {
    let t = Task::from_string("[ x ] 2024-02-20: a", fmt()).unwrap();
    assert!(t.is_completed());
    let u = Task::from_string("[X] 2024-02-20: a", fmt()).unwrap();
    assert!(!u.is_completed());
}

#[test]
fn description_keeps_later_separators() {
    let t = Task::from_string("[ ] 2024-03-01: call: Bob] now", fmt()).unwrap();
    assert_eq!(t.description(), "call: Bob] now");
}

#[test]
fn malformed_lines_are_rejected() {
    assert_eq!(Task::from_string("bad line", fmt()).unwrap_err(), TaskError::MalformedRecord);
    assert_eq!(
        Task::from_string("[ ] 2024-13-40: x", fmt()).unwrap_err(),
        TaskError::InvalidDate
    );
    assert_eq!(
        Task::from_string("[ ] 2024-03-01 no colon", fmt()).unwrap_err(),
        TaskError::MalformedRecord
    );
    assert_eq!(
        Task::from_string("[ ] 2023-02-29: x", fmt()).unwrap_err(),
        TaskError::InvalidDate
    );
}

#[test]
fn stored_line_reads_back() {
    for (line, done) in [("[ ] 2024-03-01: a: b", false), ("[x] 0999-12-31: ] x", true)] {
        let t = Task::from_string(line, fmt()).unwrap();
        assert_eq!(t.to_line(), line);
        let u = Task::from_string(&t.to_line(), fmt()).unwrap();
        assert_eq!(u.due_date(), t.due_date());
        assert_eq!(u.description(), t.description());
        assert_eq!(u.is_completed(), done);
    }
}

#[test]
fn classification_is_exclusive() {
    let today = day(2024, 3, 10);
    for (d, expected) in [
        (day(2024, 3, 9), (true, false, false)),
        (day(2024, 3, 10), (false, true, false)),
        (day(2024, 3, 11), (false, false, true)),
    ] {
        let line = format!("[x] {:04}-{:02}-{:02}: t", d.year, d.month, d.day);
        let t = Task::from_string(&line, fmt()).unwrap();
        let got = (t.is_overdue_on(&today), t.is_today_on(&today), t.is_future_on(&today));
        assert_eq!(got, expected);
    }
}

#[test]
fn display_labels() {
    let today = day(2024, 3, 10);
    let mk = |line: &str| Task::from_string(line, "%d/%m/%Y".to_string()).unwrap();
    assert_eq!(mk("[ ] 2024-03-10: a").display_on(&today).unwrap(), "today: a");
    assert_eq!(mk("[ ] 2024-03-11: a").display_on(&today).unwrap(), "tomorrow: a");
    assert_eq!(mk("[ ] 2024-03-09: a").display_on(&today).unwrap(), "yesterday: a");
    assert_eq!(mk("[ ] 2024-01-01: a").display_on(&today).unwrap(), "01/01/2024: a");
    assert_eq!(mk("[x] 2024-03-10: a").display_on(&today).unwrap(), "\u{2713} today: a");
}

#[test]
fn display_labels_across_month_end() {
    let today = day(2024, 2, 29);
    let t = Task::from_string("[ ] 2024-03-01: a", fmt()).unwrap();
    assert_eq!(t.display_on(&today).unwrap(), "tomorrow: a");
    let u = Task::from_string("[ ] 2024-02-28: b", fmt()).unwrap();
    assert_eq!(u.display_on(&today).unwrap(), "yesterday: b");
}

#[test]
fn rejected_pattern_gives_none() {
    let t = Task::from_string("[ ] 2024-01-01: a", "%Q".to_string()).unwrap();
    assert!(t.display_on(&day(2024, 3, 10)).is_none());
}

#[test]
fn tasks_compare_by_date_only() {
    let a = Task::from_string("[ ] 2024-03-01: a", fmt()).unwrap();
    let b = Task::from_string("[x] 2024-03-01: b", fmt()).unwrap();
    let c = Task::from_string("[ ] 2024-03-02: a", fmt()).unwrap();
    assert!(a == b);
    assert!(a != c);
    assert!(a < c);
    assert!(c > b);
}

#[test]
fn dates_step_over_month_and_year() {
    assert_eq!(day(2024, 2, 28).succ(), Some(day(2024, 2, 29)));
    assert_eq!(day(2023, 2, 28).succ(), Some(day(2023, 3, 1)));
    assert_eq!(day(2023, 12, 31).succ(), Some(day(2024, 1, 1)));
    assert_eq!(day(2024, 3, 1).pred(), Some(day(2024, 2, 29)));
    assert_eq!(day(2024, 1, 1).pred(), Some(day(2023, 12, 31)));
    assert_eq!(day(1900, 3, 1).pred(), Some(day(1900, 2, 28)));
    assert_eq!(day(262142, 12, 31).succ(), None);
    assert_eq!(day(-262143, 1, 1).pred(), None);
}

#[test]
fn invalid_dates_are_refused() {
    assert!(Date::from_ymd(2023, 2, 29).is_none());
    assert!(Date::from_ymd(2000, 2, 29).is_some());
    assert!(Date::from_ymd(2024, 4, 31).is_none());
    assert!(Date::from_ymd(2024, 0, 1).is_none());
    assert!(Date::from_ymd(2024, 13, 1).is_none());
    assert!(Date::from_ymd(262143, 1, 1).is_none());
}
