use vstd::multiset::Multiset;
use vstd::prelude::*;

use crate::date::{iso_pattern, iso_text, lemma_iso_text_shape, parsed_date_of, Date};
use crate::order::{lemma_sort_by_date, sorted_by_date};
use crate::task::{
    completion_marker, date_separator, due_on, future_on, marker_separator, overdue_on,
    parse_line, TaskError, TaskModel,
};
use crate::task_handler::{belongs, listing, read_records, select, Category};
use crate::text::{lemma_split_once_at, lines_of, occurs_at, split_once};

verus! {

broadcast use vstd::seq_lib::group_to_multiset_ensures;

/// On a given day a task is exactly one of overdue, due today, or due later.
pub proof fn lemma_classification_exhaustive(t: TaskModel, today: Date)
    ensures
        overdue_on(t, today) || due_on(t, today) || future_on(t, today),
        !(overdue_on(t, today) && due_on(t, today)),
        !(overdue_on(t, today) && future_on(t, today)),
        !(due_on(t, today) && future_on(t, today)),
{
}

proof fn lemma_select_members(s: Seq<TaskModel>, c: Category, today: Date)
    ensures
        forall|i: int|
            0 <= i < select(s, c, today).len() ==> belongs(#[trigger] select(s, c, today)[i], c, today),
    decreases s.len(),
{
    if s.len() > 0 {
        let d = s.drop_last();
        lemma_select_members(d, c, today);
        let sub = select(d, c, today);
        let r = select(s, c, today);
        assert forall|i: int| 0 <= i < r.len() implies belongs(#[trigger] r[i], c, today) by {
            if i < sub.len() {
                assert(r[i] == sub[i]);
            }
        }
    }
}

proof fn lemma_select_partition(s: Seq<TaskModel>, today: Date)
    ensures
        select(s, Category::Overdue, today).to_multiset().add(
            select(s, Category::Today, today).to_multiset(),
        ).add(select(s, Category::Scheduled, today).to_multiset()).add(
            select(s, Category::Completed, today).to_multiset(),
        ) == s.to_multiset(),
        select(s, Category::CompletedToday, today).to_multiset().subset_of(
            select(s, Category::Completed, today).to_multiset(),
        ),
    decreases s.len(),
{
    if s.len() == 0 {
        assert(s.to_multiset() =~= Multiset::<TaskModel>::empty());
        assert(select(s, Category::Overdue, today).to_multiset() =~= Multiset::empty());
        assert(select(s, Category::Today, today).to_multiset() =~= Multiset::empty());
        assert(select(s, Category::Scheduled, today).to_multiset() =~= Multiset::empty());
        assert(select(s, Category::Completed, today).to_multiset() =~= Multiset::empty());
        assert(select(s, Category::CompletedToday, today).to_multiset() =~= Multiset::empty());
    } else {
        let d = s.drop_last();
        let x = s.last();
        lemma_select_partition(d, today);
        assert(s =~= d.push(x));
        lemma_classification_exhaustive(x, today);
        assert(select(s, Category::Overdue, today).to_multiset().add(
            select(s, Category::Today, today).to_multiset(),
        ).add(select(s, Category::Scheduled, today).to_multiset()).add(
            select(s, Category::Completed, today).to_multiset(),
        ) =~= s.to_multiset());
        assert(select(s, Category::CompletedToday, today).to_multiset().subset_of(
            select(s, Category::Completed, today).to_multiset(),
        ));
    }
}

/// The listing of a group holds the group's tasks, and nothing else.
pub proof fn lemma_listing_members(s: Seq<TaskModel>, c: Category, today: Date)
    ensures
        listing(s, c, today).to_multiset() == select(s, c, today).to_multiset(),
        forall|i: int|
            0 <= i < listing(s, c, today).len() ==> belongs(
                #[trigger] listing(s, c, today)[i],
                c,
                today,
            ),
{
    let sel = select(s, c, today);
    lemma_sort_by_date(sel);
    lemma_select_members(s, c, today);
    assert forall|i: int| 0 <= i < listing(s, c, today).len() implies belongs(
        #[trigger] listing(s, c, today)[i],
        c,
        today,
    ) by {
        let x = listing(s, c, today)[i];
        assert(listing(s, c, today).contains(x));
        assert(sel.to_multiset().count(x) > 0);
        assert(sel.contains(x));
        let k = choose|k: int| 0 <= k < sel.len() && sel[k] == x;
        assert(belongs(sel[k], c, today));
    }
}

/// The overdue, today, scheduled and done listings together hold every task exactly once;
/// the first three hold open tasks only, each of its own kind, and the done tasks due today
/// are among the done tasks.
pub proof fn lemma_category_partition(s: Seq<TaskModel>, today: Date)
    ensures
        listing(s, Category::Overdue, today).to_multiset().add(
            listing(s, Category::Today, today).to_multiset(),
        ).add(listing(s, Category::Scheduled, today).to_multiset()).add(
            listing(s, Category::Completed, today).to_multiset(),
        ) == s.to_multiset(),
        forall|i: int|
            0 <= i < listing(s, Category::Overdue, today).len() ==> {
                let t = #[trigger] listing(s, Category::Overdue, today)[i];
                overdue_on(t, today) && !t.completed
            },
        forall|i: int|
            0 <= i < listing(s, Category::Today, today).len() ==> {
                let t = #[trigger] listing(s, Category::Today, today)[i];
                due_on(t, today) && !t.completed
            },
        forall|i: int|
            0 <= i < listing(s, Category::Scheduled, today).len() ==> {
                let t = #[trigger] listing(s, Category::Scheduled, today)[i];
                future_on(t, today) && !t.completed
            },
        forall|i: int|
            0 <= i < listing(s, Category::Completed, today).len() ==> (#[trigger] listing(
                s,
                Category::Completed,
                today,
            )[i]).completed,
        listing(s, Category::CompletedToday, today).to_multiset().subset_of(
            listing(s, Category::Completed, today).to_multiset(),
        ),
{
    lemma_select_partition(s, today);
    lemma_listing_members(s, Category::Overdue, today);
    lemma_listing_members(s, Category::Today, today);
    lemma_listing_members(s, Category::Scheduled, today);
    lemma_listing_members(s, Category::Completed, today);
    lemma_listing_members(s, Category::CompletedToday, today);
}

/// Every listing comes in non-decreasing order of due date.
pub proof fn lemma_listing_sorted(s: Seq<TaskModel>, c: Category, today: Date)
    ensures
        sorted_by_date(listing(s, c, today)),
{
    lemma_sort_by_date(select(s, c, today));
}

/// An empty task file holds no tasks, and no task is listed in any group.
pub proof fn lemma_empty_store(content: Seq<char>, date_format: Seq<char>, c: Category, today: Date)
    requires
        content.len() == 0,
    ensures
        read_records(lines_of(content), date_format) == Ok::<Seq<TaskModel>, TaskError>(seq![]),
        listing(seq![], c, today).len() == 0,
{
    assert(lines_of(content) =~= Seq::<Seq<char>>::empty());
}

proof fn lemma_marker_split(completed: bool, rest: Seq<char>)
    ensures
        split_once(completion_marker(completed) + rest, marker_separator()) == Some(
            (completion_marker(completed).take(2), rest),
        ),
{
    let line = completion_marker(completed) + rest;
    let ms = marker_separator();
    assert(line.subrange(2, 4) =~= ms);
    assert forall|j: int| 0 <= j < 2 implies !occurs_at(line, ms, j) by {
        if occurs_at(line, ms, j) {
            assert(line.subrange(j, j + 2)[0] == line[j]);
        }
    }
    lemma_split_once_at(line, ms, 2);
    assert(line.take(2) =~= completion_marker(completed).take(2));
    assert(line.skip(4) =~= rest);
}

proof fn lemma_date_split(date_text: Seq<char>, description: Seq<char>)
    requires
        date_text.len() == 10,
        forall|j: int| 0 <= j < 10 ==> #[trigger] date_text[j] != ':',
    ensures
        split_once(date_text + date_separator() + description, date_separator()) == Some(
            (date_text, description),
        ),
{
    let ds = date_separator();
    let rest = date_text + ds + description;
    assert(rest.subrange(10, 12) =~= ds);
    assert forall|j: int| 0 <= j < 10 implies !occurs_at(rest, ds, j) by {
        if occurs_at(rest, ds, j) {
            assert(rest.subrange(j, j + 2)[0] == rest[j]);
            assert(rest[j] == date_text[j]);
        }
    }
    lemma_split_once_at(rest, ds, 10);
    assert(rest.take(10) =~= date_text);
    assert(rest.skip(12) =~= description);
}

/// The stored line of a task whose date is read back as itself gives back the task, and
/// with it its description and whether it is done, whatever the description holds.
pub proof fn lemma_round_trip(t: TaskModel, date_format: Seq<char>)
    requires
        t.due_date.wf(),
        0 <= t.due_date.year <= 9999,
        parsed_date_of(iso_text(t.due_date), iso_pattern()) == Some(t.due_date),
    ensures
        parse_line(
            completion_marker(t.completed) + iso_text(t.due_date) + date_separator() + t.description,
            date_format,
        ) == Ok::<TaskModel, TaskError>(TaskModel { date_format, ..t }),
{
    let iso = iso_text(t.due_date);
    lemma_iso_text_shape(t.due_date);
    let rest = iso + date_separator() + t.description;
    assert(completion_marker(t.completed) + iso + date_separator() + t.description
        =~= completion_marker(t.completed) + rest);
    lemma_marker_split(t.completed, rest);
    lemma_date_split(iso, t.description);
    let m = completion_marker(t.completed).take(2);
    if t.completed {
        assert(m[1] == 'x');
    } else {
        assert forall|k: int| 0 <= k < m.len() implies m[k] != 'x' by {}
    }
}

} // verus!
