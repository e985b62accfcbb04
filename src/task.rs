use vstd::prelude::*;

use crate::date::{
    date_lt, date_text_of, date_to_string, format_date, formatted_date_of, iso_pattern, iso_text,
    local_today, next_day, parse_date, parsed_date_of, prev_day, Date,
};
use crate::text::{contains_char, split_once, split_once_str, text_of};

verus! {

/// Why a task could not be read or added.
#[derive(Clone, Copy, Debug, PartialEq, Eq, Structural)]
pub enum TaskError {
    /// A line lacks the `] ` or the `: ` separator.
    MalformedRecord,
    /// The date of a line is not a `YYYY-MM-DD` calendar date.
    InvalidDate,
    /// The due date of a new task is neither a date nor a known word.
    InvalidDueDate,
    /// A new task does not make a readable line.
    InvalidArgument,
}

/// What a task holds.
pub struct TaskModel {
    pub description: Seq<char>,
    pub due_date: Date,
    pub completed: bool,
    pub date_format: Seq<char>,
}

/// One task: a due date, a description, whether it is done, and the pattern its date is
/// shown with.
#[derive(Clone, Debug)]
pub struct Task {
    description: String,
    due_date: Date,
    completed: bool,
    date_format: String,
}

impl View for Task {
    type V = TaskModel;

    closed spec fn view(&self) -> TaskModel {
        TaskModel {
            description: self.description@,
            due_date: self.due_date,
            completed: self.completed,
            date_format: self.date_format@,
        }
    }
}

pub open spec fn marker_separator() -> Seq<char> {
    seq![']', ' ']
}

pub open spec fn date_separator() -> Seq<char> {
    seq![':', ' ']
}

/// The task that a line describes, under the given display pattern.
pub open spec fn parse_line(line: Seq<char>, date_format: Seq<char>) -> Result<
    TaskModel,
    TaskError,
> {
    match split_once(line, marker_separator()) {
        None => Err(TaskError::MalformedRecord),
        Some((marker, rest)) => match split_once(rest, date_separator()) {
            None => Err(TaskError::MalformedRecord),
            Some((date_text, description)) => match parsed_date_of(date_text, iso_pattern()) {
                None => Err(TaskError::InvalidDate),
                Some(d) => Ok(
                    TaskModel {
                        description,
                        due_date: d,
                        completed: marker.contains('x'),
                        date_format,
                    },
                ),
            },
        },
    }
}

pub open spec fn completion_marker(completed: bool) -> Seq<char> {
    if completed {
        seq!['[', 'x', ']', ' ']
    } else {
        seq!['[', ' ', ']', ' ']
    }
}

/// The one line that stores a task.
pub open spec fn line_text(t: TaskModel) -> Seq<char> {
    completion_marker(t.completed) + date_text_of(t.due_date) + date_separator() + t.description
}

pub open spec fn today_word() -> Seq<char> {
    seq!['t', 'o', 'd', 'a', 'y']
}

pub open spec fn tomorrow_word() -> Seq<char> {
    seq!['t', 'o', 'm', 'o', 'r', 'r', 'o', 'w']
}

pub open spec fn yesterday_word() -> Seq<char> {
    seq!['y', 'e', 's', 't', 'e', 'r', 'd', 'a', 'y']
}

/// How a due date is named on a given day: by a word near that day, else under the pattern.
pub open spec fn date_label(d: Date, today: Date, date_format: Seq<char>) -> Option<Seq<char>> {
    if d == today {
        Some(today_word())
    } else if d == next_day(today) {
        Some(tomorrow_word())
    } else if d == prev_day(today) {
        Some(yesterday_word())
    } else {
        formatted_date_of(d, date_format)
    }
}

pub open spec fn done_prefix(completed: bool) -> Seq<char> {
    if completed {
        seq!['\u{2713}', ' ']
    } else {
        seq![]
    }
}

/// The text that shows a task on a given day.
pub open spec fn display_text(t: TaskModel, today: Date) -> Option<Seq<char>> {
    match date_label(t.due_date, today, t.date_format) {
        Some(label) => Some(done_prefix(t.completed) + label + date_separator() + t.description),
        None => None,
    }
}

pub open spec fn overdue_on(t: TaskModel, today: Date) -> bool {
    date_lt(t.due_date, today)
}

pub open spec fn due_on(t: TaskModel, today: Date) -> bool {
    t.due_date == today
}

pub open spec fn future_on(t: TaskModel, today: Date) -> bool {
    date_lt(today, t.due_date)
}

/// How two due dates compare.
pub open spec fn date_ordering(a: Date, b: Date) -> core::cmp::Ordering {
    if date_lt(a, b) {
        core::cmp::Ordering::Less
    } else if a == b {
        core::cmp::Ordering::Equal
    } else {
        core::cmp::Ordering::Greater
    }
}

/// Two tasks are equal when they are due on the same day.
impl PartialEq for Task {
    fn eq(&self, other: &Task) -> (r: bool) {
        self.due_date == other.due_date
    }
}

impl vstd::std_specs::cmp::PartialEqSpecImpl for Task {
    open spec fn obeys_eq_spec() -> bool {
        true
    }

    open spec fn eq_spec(&self, other: &Task) -> bool {
        self@.due_date == other@.due_date
    }
}

/// Tasks are ordered by due date alone.
impl PartialOrd for Task {
    fn partial_cmp(&self, other: &Task) -> (r: Option<core::cmp::Ordering>) {
        if self.due_date.is_before(&other.due_date) {
            Some(core::cmp::Ordering::Less)
        } else if self.due_date == other.due_date {
            Some(core::cmp::Ordering::Equal)
        } else {
            Some(core::cmp::Ordering::Greater)
        }
    }
}

impl vstd::std_specs::cmp::PartialOrdSpecImpl for Task {
    open spec fn obeys_partial_cmp_spec() -> bool {
        true
    }

    open spec fn partial_cmp_spec(&self, other: &Task) -> Option<core::cmp::Ordering> {
        Some(date_ordering(self@.due_date, other@.due_date))
    }
}

impl Task {
    pub open spec fn wf(&self) -> bool {
        self@.due_date.wf()
    }

    /// An exact copy of the task.
    pub fn copy(&self) -> (r: Task)
        ensures
            r == *self,
    {
        Task {
            description: self.description.clone(),
            due_date: self.due_date,
            completed: self.completed,
            date_format: self.date_format.clone(),
        }
    }

    /// Reads a task from one line `[<marker>] <YYYY-MM-DD>: <description>`; it is done
    /// when the marker holds an `x`.
    pub fn from_string(line: &str, date_format: String) -> (r: Result<Task, TaskError>)
        ensures
            r matches Ok(t) ==> parse_line(line@, date_format@) == Ok::<TaskModel, TaskError>(t@) && t.wf(),
            r matches Err(e) ==> parse_line(line@, date_format@) == Err::<TaskModel, TaskError>(e),
    {
        proof {
            reveal_strlit("] ");
            reveal_strlit(": ");
            reveal_strlit("%Y-%m-%d");
        }
        assert("] "@ =~= marker_separator());
        assert(": "@ =~= date_separator());
        assert("%Y-%m-%d"@ =~= iso_pattern());
        let (marker, rest) = match split_once_str(line, "] ") {
            Some(parts) => parts,
            None => return Err(TaskError::MalformedRecord),
        };
        let completed = contains_char(marker.as_str(), 'x');
        let (date_text, description) = match split_once_str(rest.as_str(), ": ") {
            Some(parts) => parts,
            None => return Err(TaskError::MalformedRecord),
        };
        let due_date = match parse_date(date_text.as_str(), "%Y-%m-%d") {
            Some(d) => d,
            None => return Err(TaskError::InvalidDate),
        };
        Ok(Task { description, due_date, completed, date_format })
    }

    /// The due date.
    pub fn due_date(&self) -> (r: Date)
        ensures
            r == self@.due_date,
    {
        self.due_date
    }

    /// The description.
    pub fn description(&self) -> (r: &str)
        ensures
            r@ == self@.description,
    {
        self.description.as_str()
    }

    /// The pattern the due date is shown with.
    pub fn date_format(&self) -> (r: &str)
        ensures
            r@ == self@.date_format,
    {
        self.date_format.as_str()
    }

    pub fn is_completed(&self) -> (r: bool)
        ensures
            r == self@.completed,
    {
        self.completed
    }

    /// Whether the task was due before `today`.
    pub fn is_overdue_on(&self, today: &Date) -> (r: bool)
        ensures
            r == overdue_on(self@, *today),
    {
        self.due_date.is_before(today)
    }

    /// Whether the task is due on `today`.
    pub fn is_today_on(&self, today: &Date) -> (r: bool)
        ensures
            r == due_on(self@, *today),
    {
        self.due_date == *today
    }

    /// Whether the task is due after `today`.
    pub fn is_future_on(&self, today: &Date) -> (r: bool)
        ensures
            r == future_on(self@, *today),
    {
        today.is_before(&self.due_date)
    }

    /// Whether the task was due before the current local day.
    pub fn is_overdue(&self) -> (r: bool)
        ensures
            exists|today: Date| today.wf() && r == overdue_on(self@, today),
    {
        let today = local_today();
        self.is_overdue_on(&today)
    }

    /// Whether the task is due on the current local day.
    pub fn is_today(&self) -> (r: bool)
        ensures
            exists|today: Date| today.wf() && r == due_on(self@, today),
    {
        let today = local_today();
        self.is_today_on(&today)
    }

    /// Whether the task is due after the current local day.
    pub fn is_future(&self) -> (r: bool)
        ensures
            exists|today: Date| today.wf() && r == future_on(self@, today),
    {
        let today = local_today();
        self.is_future_on(&today)
    }

    /// The line that stores the task.
    pub fn to_line(&self) -> (r: String)
        requires
            self.wf(),
        ensures
            r@ == line_text(self@),
            0 <= self@.due_date.year <= 9999 ==> r@ == completion_marker(self@.completed)
                + iso_text(self@.due_date) + date_separator() + self@.description,
    {
        proof {
            reveal_strlit("[x] ");
            reveal_strlit("[ ] ");
            reveal_strlit(": ");
        }
        let mut r = if self.completed {
            text_of("[x] ")
        } else {
            text_of("[ ] ")
        };
        assert(r@ =~= completion_marker(self.completed));
        let d = date_to_string(&self.due_date);
        r.append(d.as_str());
        r.append(": ");
        r.append(self.description.as_str());
        assert(r@ =~= line_text(self@));
        r
    }

    /// The text that shows the task on `today`; `None` when its date has to be written
    /// under a pattern that chrono rejects.
    pub fn display_on(&self, today: &Date) -> (r: Option<String>)
        requires
            self.wf(),
            today.wf(),
        ensures
            r matches Some(s) ==> display_text(self@, *today) == Some(s@),
            r is None ==> display_text(self@, *today) is None,
    {
        proof {
            reveal_strlit("today");
            reveal_strlit("tomorrow");
            reveal_strlit("yesterday");
            reveal_strlit("\u{2713} ");
            reveal_strlit(": ");
        }
        assert("today"@ =~= today_word());
        assert("tomorrow"@ =~= tomorrow_word());
        assert("yesterday"@ =~= yesterday_word());
        let tomorrow = today.succ();
        let yesterday = today.pred();
        let is_tomorrow = match tomorrow {
            Some(n) => n == self.due_date,
            None => false,
        };
        let is_yesterday = match yesterday {
            Some(p) => p == self.due_date,
            None => false,
        };
        let label = if self.due_date == *today {
            text_of("today")
        } else if is_tomorrow {
            text_of("tomorrow")
        } else if is_yesterday {
            text_of("yesterday")
        } else {
            match format_date(&self.due_date, self.date_format.as_str()) {
                Some(s) => s,
                None => return None,
            }
        };
        assert(label@ == date_label(self.due_date, *today, self.date_format@)->Some_0);
        let mut r = if self.completed {
            text_of("\u{2713} ")
        } else {
            String::new()
        };
        assert(r@ =~= done_prefix(self.completed));
        r.append(label.as_str());
        r.append(": ");
        r.append(self.description.as_str());
        assert(r@ =~= done_prefix(self.completed) + label@ + date_separator() + self.description@);
        Some(r)
    }

    /// The text that shows the task on the current local day.
    pub fn to_display_string(&self) -> (r: Option<String>)
        requires
            self.wf(),
        ensures
            exists|today: Date|
                today.wf() && (r matches Some(s) ==> display_text(self@, today) == Some(s@)) && (
                r is None ==> display_text(self@, today) is None),
    {
        let today = local_today();
        self.display_on(&today)
    }
}

} // verus!
