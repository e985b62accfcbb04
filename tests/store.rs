use clutter::config::{match_color, Color, Config, ConfigError};
use clutter::date::Date;
use clutter::task::{Task, TaskError};
use clutter::task_handler::{split_add_argument, Category, TaskHandler};

fn day(y: i32, m: u32, d: u32) -> Date {
    Date::from_ymd(y, m, d).unwrap()
}

fn handler() -> TaskHandler {
    TaskHandler::new("/data/".to_string(), "%Y-%m-%d".to_string()).unwrap()
}

fn descriptions(ts: &[Task]) -> Vec<String> {
    ts.iter().map(|t| t.description().to_string()).collect()
}

const FILE: &str = "[ ] 2024-03-12: later\n\
[x] 2024-03-10: done today\n\
[ ] 2024-03-01: old\n\
\n\
[ ] 2024-03-10: first today\r\n\
[x] 2024-02-01: done before\n\
[ ] 2024-03-10: second today\n\
[ ] 2024-02-15: older";

#[test]
fn add_resolves_words() {
    let h = handler();
    let today = day(2024, 3, 10);
    assert_eq!(h.add_task_on("today", "X", &today).unwrap(), "[ ] 2024-03-10: X\n");
    assert_eq!(h.add_task_on("tomorrow", "X", &today).unwrap(), "[ ] 2024-03-11: X\n");
    assert_eq!(h.add_task_on("yesterday", "X", &today).unwrap(), "[ ] 2024-03-09: X\n");
    assert_eq!(h.add_task_on("2024-03-01", "X", &today).unwrap(), "[ ] 2024-03-01: X\n");
    assert_eq!(h.add_task_on("notadate", "X", &today).unwrap_err(), TaskError::InvalidDueDate);
    assert_eq!(h.add_task_on("2024-02-30", "X", &today).unwrap_err(), TaskError::InvalidDueDate);
}

#[test]
fn add_resolves_words_at_year_end() {
    let h = handler();
    let today = day(2023, 12, 31);
    assert_eq!(h.add_task_on("tomorrow", "Y", &today).unwrap(), "[ ] 2024-01-01: Y\n");
}

#[test]
fn empty_store_lists_nothing() {
    let mut h = handler();
    h.load_tasks("").unwrap();
    let today = day(2024, 3, 10);
    for c in [
        Category::Overdue,
        Category::Today,
        Category::Scheduled,
        Category::Completed,
        Category::CompletedToday,
    ] {
        assert!(h.query(c, &today).is_empty());
    }
}

#[test]
fn listings_are_grouped_and_sorted() {
    let mut h = handler();
    h.load_tasks(FILE).unwrap();
    let today = day(2024, 3, 10);
    assert_eq!(descriptions(&h.query(Category::Overdue, &today)), vec!["older", "old"]);
    assert_eq!(
        descriptions(&h.query(Category::Today, &today)),
        vec!["first today", "second today"]
    );
    assert_eq!(descriptions(&h.query(Category::Scheduled, &today)), vec!["later"]);
    assert_eq!(
        descriptions(&h.query(Category::Completed, &today)),
        vec!["done before", "done today"]
    );
    assert_eq!(descriptions(&h.query(Category::CompletedToday, &today)), vec!["done today"]);
}

#[test]
fn listings_cover_every_task_once() {
    let mut h = handler();
    h.load_tasks(FILE).unwrap();
    let today = day(2024, 3, 10);
    let mut all: Vec<String> = Vec::new();
    for c in [Category::Overdue, Category::Today, Category::Scheduled, Category::Completed] {
        let l = h.query(c, &today);
        for w in l.windows(2) {
            assert!(!(w[1].due_date().is_before(&w[0].due_date())));
        }
        all.extend(descriptions(&l));
    }
    all.sort();
    let mut expected: Vec<String> = [
        "later",
        "done today",
        "old",
        "first today",
        "done before",
        "second today",
        "older",
    ]
    .iter()
    .map(|s| s.to_string())
    .collect();
    expected.sort();
    assert_eq!(all, expected);
}

#[test]
fn load_stops_at_first_bad_line() {
    let mut h = handler();
    h.load_tasks("[ ] 2024-03-01: a\n").unwrap();
    assert_eq!(
        h.load_tasks("[ ] 2024-03-02: b\nbad line\n[ ] 2024-99-01: c").unwrap_err(),
        TaskError::MalformedRecord
    );
    let l = h.query(Category::Overdue, &day(2024, 3, 10));
    assert_eq!(descriptions(&l), vec!["a"]);
    assert_eq!(
        h.load_tasks("[ ] 2024-99-01: c\nbad line").unwrap_err(),
        TaskError::InvalidDate
    );
}

#[test]
fn tasks_path_joins_directory() {
    assert_eq!(handler().tasks_path(), "/data/tasks.txt");
}

#[test]
fn config_defaults_and_settings() {
    let c = Config::from_text("", "/home/u/.config/clutter/".to_string()).unwrap();
    assert_eq!(c.datadir, "/home/u/.config/clutter/");
    assert_eq!(c.editor, "");
    assert_eq!(c.date_format, "%Y-%m-%d");
    assert_eq!(c.overdue_color, Color::Red);
    assert_eq!(c.today_color, Color::Yellow);
    assert_eq!(c.scheduled_color, Color::Cyan);
    assert_eq!(c.completed_color, Color::Green);
    assert_eq!(c.notasks_color, Color::White);
    let text = "datadir=/tmp/\neditor=vim\ndate_format=%d.%m.\ntoday_color=Bright_Blue\nnotasks_color=black";
    let d = Config::from_text(text, "/x/".to_string()).unwrap();
    assert_eq!(d.datadir, "/tmp/");
    assert_eq!(d.editor, "vim");
    assert_eq!(d.date_format, "%d.%m.");
    assert_eq!(d.today_color, Color::BrightBlue);
    assert_eq!(d.notasks_color, Color::Black);
    assert_eq!(d.overdue_color, Color::Red);
}

#[test]
fn config_errors() {
    assert_eq!(
        Config::from_text("datadir", "/x/".to_string()).err(),
        Some(ConfigError::Syntax)
    );
    assert_eq!(
        Config::from_text("colour=red", "/x/".to_string()).err(),
        Some(ConfigError::Syntax)
    );
    assert_eq!(
        Config::from_text("overdue_color=pink", "/x/".to_string()).err(),
        Some(ConfigError::InvalidColor)
    );
}

#[test]
fn colors_match_in_any_case() {
    assert_eq!(match_color("RED"), Ok(Color::Red));
    assert_eq!(match_color("Bright_Magenta"), Ok(Color::BrightMagenta));
    assert_eq!(match_color("purple"), Err(ConfigError::InvalidColor));
}

#[test]
fn add_argument_splits_at_first_separator() {
    assert_eq!(
        split_add_argument("tomorrow: Buy milk: 2 l").unwrap(),
        ("tomorrow".to_string(), "Buy milk: 2 l".to_string())
    );
    assert_eq!(split_add_argument("tomorrow Buy milk").unwrap_err(), TaskError::InvalidArgument);
}
