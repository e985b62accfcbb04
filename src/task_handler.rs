use vstd::prelude::*;

use crate::date::{
    date_le, date_lt, date_text_of, date_to_string, iso_pattern, local_today, next_day, parse_date,
    parsed_date_of, prev_day, Date,
};
use crate::order::{
    insert_by_date, lemma_models_push, lemma_sort_by_date, models, sort_by_date, sort_tasks, sorted_by_date,
};
use crate::task::{
    date_separator, due_on, future_on, overdue_on, parse_line, today_word, tomorrow_word,
    yesterday_word, Task, TaskError, TaskModel,
};
use crate::text::{lines, lines_of, same_text, split_once, split_once_str, text_of};

verus! {

/// The groups in which tasks are listed.
#[derive(Clone, Copy, Debug, PartialEq, Eq, Structural)]
pub enum Category {
    /// Open tasks due before today.
    Overdue,
    /// Open tasks due today.
    Today,
    /// Open tasks due after today.
    Scheduled,
    /// Done tasks.
    Completed,
    /// Done tasks due today.
    CompletedToday,
}

/// Whether a task is listed in a group on a given day.
pub open spec fn belongs(t: TaskModel, c: Category, today: Date) -> bool {
    match c {
        Category::Overdue => overdue_on(t, today) && !t.completed,
        Category::Today => due_on(t, today) && !t.completed,
        Category::Scheduled => future_on(t, today) && !t.completed,
        Category::Completed => t.completed,
        Category::CompletedToday => t.completed && due_on(t, today),
    }
}

/// The tasks of a group, in their order.
pub open spec fn select(s: Seq<TaskModel>, c: Category, today: Date) -> Seq<TaskModel>
    decreases s.len(),
{
    if s.len() == 0 {
        s
    } else {
        let rest = select(s.drop_last(), c, today);
        if belongs(s.last(), c, today) {
            rest.push(s.last())
        } else {
            rest
        }
    }
}

/// The tasks of a group, in order of due date, tasks due on the same day in stored order.
pub open spec fn listing(s: Seq<TaskModel>, c: Category, today: Date) -> Seq<TaskModel> {
    sort_by_date(select(s, c, today))
}

/// The tasks that a sequence of lines holds, or the error of the first line that cannot be
/// read; empty lines are skipped.
pub open spec fn read_records(ls: Seq<Seq<char>>, date_format: Seq<char>) -> Result<
    Seq<TaskModel>,
    TaskError,
>
    decreases ls.len(),
{
    if ls.len() == 0 {
        Ok(seq![])
    } else {
        match read_records(ls.drop_last(), date_format) {
            Err(e) => Err(e),
            Ok(ts) => if ls.last().len() == 0 {
                Ok(ts)
            } else {
                match parse_line(ls.last(), date_format) {
                    Ok(t) => Ok(ts.push(t)),
                    Err(e) => Err(e),
                }
            },
        }
    }
}

/// The date text that a due-date word or date names on a given day, before it is checked.
pub open spec fn resolve_due(token: Seq<char>, today: Date) -> Seq<char> {
    if token == today_word() {
        date_text_of(today)
    } else if token == yesterday_word() {
        date_text_of(prev_day(today))
    } else if token == tomorrow_word() {
        date_text_of(next_day(today))
    } else {
        token
    }
}

/// Whether the day that a due-date word names on a given day is a supported date.
pub open spec fn due_in_range(token: Seq<char>, today: Date) -> bool {
    if token == yesterday_word() {
        prev_day(today).wf()
    } else if token == tomorrow_word() {
        next_day(today).wf()
    } else {
        true
    }
}

pub open spec fn open_marker() -> Seq<char> {
    seq!['[', ' ', ']', ' ']
}

/// The line that adds a task with a due-date word or date and a description on a given day.
pub open spec fn new_task_line(
    token: Seq<char>,
    description: Seq<char>,
    today: Date,
    date_format: Seq<char>,
) -> Result<Seq<char>, TaskError> {
    let due = resolve_due(token, today);
    let line = open_marker() + due + date_separator() + description + seq!['\n'];
    if !due_in_range(token, today) || parsed_date_of(due, iso_pattern()) is None {
        Err(TaskError::InvalidDueDate)
    } else if parse_line(line, date_format) is Err {
        Err(TaskError::InvalidArgument)
    } else {
        Ok(line)
    }
}

pub open spec fn tasks_file_name() -> Seq<char> {
    seq!['t', 'a', 's', 'k', 's', '.', 't', 'x', 't']
}

/// Splits the argument of the add command, `<due date>: <description>`, at its first `: `.
pub fn split_add_argument(arg: &str) -> (r: Result<(String, String), TaskError>)
    ensures
        r matches Ok((due, description)) ==> split_once(arg@, date_separator()) == Some(
            (due@, description@),
        ),
        r is Err ==> split_once(arg@, date_separator()) is None && r == Err::<
            (String, String),
            TaskError,
        >(TaskError::InvalidArgument),
{
    proof {
        reveal_strlit(": ");
    }
    assert(": "@ =~= date_separator());
    match split_once_str(arg, ": ") {
        Some(parts) => Ok(parts),
        None => Err(TaskError::InvalidArgument),
    }
}

/// What a task list holds.
pub struct TaskHandlerModel {
    pub tasks: Seq<TaskModel>,
    pub datadir: Seq<char>,
    pub date_format: Seq<char>,
}

/// The tasks read from the task file, with the directory of that file and the pattern that
/// dates are shown with.
pub struct TaskHandler {
    tasks: Vec<Task>,
    datadir: String,
    date_format: String,
}

impl View for TaskHandler {
    type V = TaskHandlerModel;

    closed spec fn view(&self) -> TaskHandlerModel {
        TaskHandlerModel {
            tasks: models(self.tasks@),
            datadir: self.datadir@,
            date_format: self.date_format@,
        }
    }
}

impl TaskHandler {
    /// Every task has a supported due date.
    pub open spec fn wf(&self) -> bool {
        forall|i: int| 0 <= i < self@.tasks.len() ==> (#[trigger] self@.tasks[i]).due_date.wf()
    }

    /// An empty list for the task file in `datadir`.
    pub fn new(datadir: String, date_format: String) -> (r: Result<TaskHandler, TaskError>)
        ensures
            r matches Ok(h) ==> h@.tasks.len() == 0 && h@.datadir == datadir@ && h@.date_format
                == date_format@ && h.wf(),
            r is Ok,
    {
        let h = TaskHandler { tasks: Vec::new(), datadir, date_format };
        assert(h@.tasks =~= Seq::<TaskModel>::empty());
        Ok(h)
    }

    /// The path of the task file: `datadir` followed by `tasks.txt`.
    pub fn tasks_path(&self) -> (r: String)
        ensures
            r@ == self@.datadir + tasks_file_name(),
    {
        proof {
            reveal_strlit("tasks.txt");
        }
        let mut p = self.datadir.clone();
        p.append("tasks.txt");
        assert(p@ =~= self@.datadir + tasks_file_name());
        p
    }

    /// The pattern that dates are shown with.
    pub fn date_format(&self) -> (r: &str)
        ensures
            r@ == self@.date_format,
    {
        self.date_format.as_str()
    }

    /// Replaces the tasks by those that the text of the task file holds, one per line; on
    /// the first line that cannot be read nothing changes and its error is returned.
    pub fn load_tasks(&mut self, content: &str) -> (r: Result<(), TaskError>)
        requires
            old(self).wf(),
        ensures
            final(self).wf(),
            final(self)@.datadir == old(self)@.datadir,
            final(self)@.date_format == old(self)@.date_format,
            read_records(lines_of(content@), old(self)@.date_format) matches Ok(ts) ==> r is Ok
                && final(self)@.tasks == ts,
            read_records(lines_of(content@), old(self)@.date_format) matches Err(e) ==> r == Err::<
                (),
                TaskError,
            >(e) && final(self)@.tasks == old(self)@.tasks,
    {
        let ls = lines(content);
        let ghost gl = lines_of(content@);
        let mut out: Vec<Task> = Vec::new();
        let mut i: usize = 0;
        assert(gl.take(0) =~= Seq::<Seq<char>>::empty());
        assert(models(out@) =~= Seq::<TaskModel>::empty());
        while i < ls.len()
            invariant
                gl == lines_of(content@),
                ls@.len() == gl.len(),
                forall|k: int| 0 <= k < ls@.len() ==> #[trigger] ls@[k]@ == gl[k],
                i <= ls@.len(),
                read_records(gl.take(i as int), self@.date_format) == Ok::<
                    Seq<TaskModel>,
                    TaskError,
                >(models(out@)),
                forall|k: int| 0 <= k < out@.len() ==> (#[trigger] out@[k])@.due_date.wf(),
                self@ == old(self)@,
                self.wf(),
            decreases ls@.len() - i,
        {
            assert(gl.take(i + 1).drop_last() =~= gl.take(i as int));
            assert(gl.take(i + 1).last() == ls@[i as int]@);
            let line = &ls[i];
            if line.unicode_len() != 0 {
                match Task::from_string(line.as_str(), self.date_format.clone()) {
                    Ok(t) => {
                        proof {
                            lemma_models_push(out@, t);
                        }
                        out.push(t);
                    },
                    Err(e) => {
                        proof {
                            assert(read_records(gl.take(i + 1), self@.date_format) == Err::<
                                Seq<TaskModel>,
                                TaskError,
                            >(e));
                            lemma_read_records_error(
                                gl,
                                self@.date_format,
                                i + 1,
                                gl.len() as int,
                                e,
                            );
                            assert(gl.take(gl.len() as int) =~= gl);
                        }
                        return Err(e);
                    },
                }
            }
            i = i + 1;
        }
        assert(gl.take(gl.len() as int) =~= gl);
        self.tasks = out;
        assert forall|k: int| 0 <= k < self@.tasks.len() implies (#[trigger] self@.tasks[k]).due_date.wf() by {
            assert(self@.tasks[k] == self.tasks@[k]@);
        }
        Ok(())
    }

    /// The tasks of a group on `today`, in order of due date; tasks due on the same day
    /// come in stored order.
    pub fn query(&self, c: Category, today: &Date) -> (r: Vec<Task>)
        ensures
            models(r@) == listing(self@.tasks, c, *today),
            models(r@) == select(sort_by_date(self@.tasks), c, *today),
            sorted_by_date(models(r@)),
    {
        let mut kept: Vec<Task> = Vec::new();
        let n = self.tasks.len();
        let mut i: usize = 0;
        assert(self.tasks@.take(0) =~= Seq::<Task>::empty());
        assert(models(kept@) =~= Seq::<TaskModel>::empty());
        while i < n
            invariant
                n == self.tasks@.len(),
                i <= n,
                models(kept@) == select(models(self.tasks@.take(i as int)), c, *today),
            decreases n - i,
        {
            let t = &self.tasks[i];
            let keep = match c {
                Category::Overdue => t.is_overdue_on(today) && !t.is_completed(),
                Category::Today => t.is_today_on(today) && !t.is_completed(),
                Category::Scheduled => t.is_future_on(today) && !t.is_completed(),
                Category::Completed => t.is_completed(),
                Category::CompletedToday => t.is_completed() && t.is_today_on(today),
            };
            proof {
                let m = models(self.tasks@.take(i as int));
                assert(models(self.tasks@.take(i + 1)) =~= m.push(t@));
                assert(m.push(t@).drop_last() =~= m);
            }
            if keep {
                let u = t.copy();
                proof {
                    lemma_models_push(kept@, u);
                }
                kept.push(u);
            }
            i = i + 1;
        }
        assert(self.tasks@.take(n as int) =~= self.tasks@);
        proof {
            lemma_sort_by_date(models(kept@));
            lemma_select_sort(self@.tasks, c, *today);
        }
        sort_tasks(kept)
    }

    /// Open tasks due before the current local day, in order of due date.
    pub fn get_overdue(&self) -> (r: Vec<Task>)
        ensures
            exists|today: Date|
                today.wf() && models(r@) == listing(self@.tasks, Category::Overdue, today),
    {
        self.query(Category::Overdue, &local_today())
    }

    /// Open tasks due on the current local day, in order of due date.
    pub fn get_today(&self) -> (r: Vec<Task>)
        ensures
            exists|today: Date|
                today.wf() && models(r@) == listing(self@.tasks, Category::Today, today),
    {
        self.query(Category::Today, &local_today())
    }

    /// Open tasks due after the current local day, in order of due date.
    pub fn get_scheduled(&self) -> (r: Vec<Task>)
        ensures
            exists|today: Date|
                today.wf() && models(r@) == listing(self@.tasks, Category::Scheduled, today),
    {
        self.query(Category::Scheduled, &local_today())
    }

    /// Done tasks, only those due on the current local day if `only_today`, in order of
    /// due date.
    pub fn get_completed(&self, only_today: bool) -> (r: Vec<Task>)
        ensures
            exists|today: Date|
                today.wf() && models(r@) == listing(
                    self@.tasks,
                    if only_today {
                        Category::CompletedToday
                    } else {
                        Category::Completed
                    },
                    today,
                ),
    {
        let c = if only_today {
            Category::CompletedToday
        } else {
            Category::Completed
        };
        self.query(c, &local_today())
    }

    /// The line to append to the task file for a new open task on `today`. The due date is
    /// `today`, `yesterday`, `tomorrow` or a `YYYY-MM-DD` date.
    pub fn add_task_on(&self, due_date: &str, description: &str, today: &Date) -> (r: Result<
        String,
        TaskError,
    >)
        requires
            today.wf(),
        ensures
            r matches Ok(line) ==> new_task_line(
                due_date@,
                description@,
                *today,
                self@.date_format,
            ) == Ok::<Seq<char>, TaskError>(line@),
            r matches Err(e) ==> new_task_line(due_date@, description@, *today, self@.date_format)
                == Err::<Seq<char>, TaskError>(e),
    {
        proof {
            reveal_strlit("today");
            reveal_strlit("yesterday");
            reveal_strlit("tomorrow");
            reveal_strlit("%Y-%m-%d");
            reveal_strlit("[ ] ");
            reveal_strlit(": ");
            reveal_strlit("\n");
        }
        assert("today"@ =~= today_word());
        assert("yesterday"@ =~= yesterday_word());
        assert("tomorrow"@ =~= tomorrow_word());
        assert("%Y-%m-%d"@ =~= iso_pattern());
        let due = if same_text(due_date, "today") {
            date_to_string(today)
        } else if same_text(due_date, "yesterday") {
            match today.pred() {
                Some(d) => date_to_string(&d),
                None => return Err(TaskError::InvalidDueDate),
            }
        } else if same_text(due_date, "tomorrow") {
            match today.succ() {
                Some(d) => date_to_string(&d),
                None => return Err(TaskError::InvalidDueDate),
            }
        } else {
            text_of(due_date)
        };
        assert(due@ == resolve_due(due_date@, *today));
        if parse_date(due.as_str(), "%Y-%m-%d").is_none() {
            return Err(TaskError::InvalidDueDate);
        }
        let mut line = text_of("[ ] ");
        line.append(due.as_str());
        line.append(": ");
        line.append(description);
        line.append("\n");
        assert(line@ =~= open_marker() + due@ + date_separator() + description@ + seq!['\n']);
        match Task::from_string(line.as_str(), self.date_format.clone()) {
            Ok(_) => Ok(line),
            Err(_) => Err(TaskError::InvalidArgument),
        }
    }

    /// The line to append to the task file for a new open task, on the current local day.
    pub fn add_task(&self, due_date: &str, description: &str) -> (r: Result<String, TaskError>)
        ensures
            exists|today: Date|
                today.wf() && (r matches Ok(line) ==> new_task_line(
                    due_date@,
                    description@,
                    today,
                    self@.date_format,
                ) == Ok::<Seq<char>, TaskError>(line@)) && (r matches Err(e) ==> new_task_line(
                    due_date@,
                    description@,
                    today,
                    self@.date_format,
                ) == Err::<Seq<char>, TaskError>(e)),
    {
        let today = local_today();
        self.add_task_on(due_date, description, &today)
    }
}

proof fn lemma_select_from(u: Seq<TaskModel>, c: Category, today: Date)
    ensures
        forall|i: int|
            0 <= i < select(u, c, today).len() ==> u.contains(#[trigger] select(u, c, today)[i]),
    decreases u.len(),
{
    if u.len() > 0 {
        let d = u.drop_last();
        lemma_select_from(d, c, today);
        let r = select(u, c, today);
        let sub = select(d, c, today);
        assert forall|i: int| 0 <= i < r.len() implies u.contains(#[trigger] r[i]) by {
            if i < sub.len() {
                assert(r[i] == sub[i]);
                let k = choose|k: int| 0 <= k < d.len() && d[k] == sub[i];
                assert(u[k] == d[k]);
            } else {
                assert(r[i] == u[u.len() - 1]);
            }
        }
    }
}

/// Picking a group out of tasks in date order gives what inserting into the picked group
/// gives.
proof fn lemma_select_insert(u: Seq<TaskModel>, x: TaskModel, c: Category, today: Date)
    requires
        sorted_by_date(u),
    ensures
        select(insert_by_date(u, x), c, today) == if belongs(x, c, today) {
            insert_by_date(select(u, c, today), x)
        } else {
            select(u, c, today)
        },
    decreases u.len(),
{
    let su = select(u, c, today);
    if u.len() == 0 {
        assert(seq![x].drop_last() =~= Seq::<TaskModel>::empty());
        assert(Seq::<TaskModel>::empty().push(x) =~= seq![x]);
        let e = Seq::<TaskModel>::empty();
        assert(select(e, c, today) == e);
        assert(seq![x].last() == x);
        assert(su == e);
    } else if date_lt(x.due_date, u.last().due_date) {
        let d = u.drop_last();
        assert(sorted_by_date(d));
        lemma_select_insert(d, x, c, today);
        let inner = insert_by_date(d, x);
        assert(inner.push(u.last()).drop_last() =~= inner);
        let sd = select(d, c, today);
        if belongs(u.last(), c, today) {
            assert(sd.push(u.last()).drop_last() =~= sd);
        }
    } else {
        assert(u.push(x).drop_last() =~= u);
        if belongs(x, c, today) {
            if su.len() == 0 {
                assert(Seq::<TaskModel>::empty().push(x) =~= seq![x]);
            } else {
                lemma_select_from(u, c, today);
                let y = su[su.len() - 1];
                assert(u.contains(y));
                let k = choose|k: int| 0 <= k < u.len() && u[k] == y;
                if k < u.len() - 1 {
                    assert(date_le(u[k].due_date, u[u.len() - 1].due_date));
                }
                assert(!date_lt(x.due_date, y.due_date));
            }
        }
    }
}

/// Taking a group and then sorting gives what sorting and then taking the group gives.
pub proof fn lemma_select_sort(s: Seq<TaskModel>, c: Category, today: Date)
    ensures
        listing(s, c, today) == select(sort_by_date(s), c, today),
    decreases s.len(),
{
    if s.len() > 0 {
        let d = s.drop_last();
        let x = s.last();
        lemma_select_sort(d, c, today);
        lemma_sort_by_date(d);
        lemma_select_insert(sort_by_date(d), x, c, today);
        assert(select(s, c, today) == if belongs(x, c, today) {
            select(d, c, today).push(x)
        } else {
            select(d, c, today)
        });
        if belongs(x, c, today) {
            assert(select(d, c, today).push(x).drop_last() =~= select(d, c, today));
        }
    }
}

/// Once a prefix of the lines fails to read, every longer prefix fails with the same error.
proof fn lemma_read_records_error(
    ls: Seq<Seq<char>>,
    date_format: Seq<char>,
    i: int,
    j: int,
    e: TaskError,
)
    requires
        0 <= i <= j <= ls.len(),
        read_records(ls.take(i), date_format) == Err::<Seq<TaskModel>, TaskError>(e),
    ensures
        read_records(ls.take(j), date_format) == Err::<Seq<TaskModel>, TaskError>(e),
    decreases j - i,
{
    if i < j {
        lemma_read_records_error(ls, date_format, i, j - 1, e);
        assert(ls.take(j).drop_last() =~= ls.take(j - 1));
    }
}

} // verus!
