use vstd::multiset::Multiset;
use vstd::prelude::*;

use crate::date::{date_le, date_lt};
use crate::task::{Task, TaskModel};

verus! {

/// The models of a sequence of tasks.
pub open spec fn models(v: Seq<Task>) -> Seq<TaskModel> {
    v.map_values(|t: Task| t@)
}

/// Whether the tasks come in non-decreasing order of due date.
pub open spec fn sorted_by_date(s: Seq<TaskModel>) -> bool {
    forall|i: int, j: int| 0 <= i < j < s.len() ==> date_le(s[i].due_date, s[j].due_date)
}

/// `t` put into `s` after every task that is not due later than it.
pub open spec fn insert_by_date(s: Seq<TaskModel>, t: TaskModel) -> Seq<TaskModel>
    decreases s.len(),
{
    if s.len() == 0 {
        seq![t]
    } else if date_lt(t.due_date, s.last().due_date) {
        insert_by_date(s.drop_last(), t).push(s.last())
    } else {
        s.push(t)
    }
}

/// The tasks in order of due date; tasks due on the same day keep their order.
pub open spec fn sort_by_date(s: Seq<TaskModel>) -> Seq<TaskModel>
    decreases s.len(),
{
    if s.len() == 0 {
        s
    } else {
        insert_by_date(sort_by_date(s.drop_last()), s.last())
    }
}

pub proof fn lemma_models_push(v: Seq<Task>, t: Task)
    ensures
        models(v.push(t)) == models(v).push(t@),
{
    assert(models(v.push(t)) =~= models(v).push(t@));
}

/// Where `insert_by_date` puts the new task.
pub proof fn lemma_insert_position(s: Seq<TaskModel>, t: TaskModel, j: int)
    requires
        0 <= j <= s.len(),
        forall|k: int| j <= k < s.len() ==> date_lt(t.due_date, #[trigger] s[k].due_date),
        j > 0 ==> !date_lt(t.due_date, s[j - 1].due_date),
    ensures
        insert_by_date(s, t) == s.insert(j, t),
    decreases s.len(),
{
    if s.len() == 0 {
        assert(s.insert(j, t) =~= seq![t]);
    } else if j == s.len() {
        assert(s.insert(j, t) =~= s.push(t));
    } else {
        assert(date_lt(t.due_date, s[s.len() - 1].due_date));
        let d = s.drop_last();
        assert forall|k: int| j <= k < d.len() implies date_lt(t.due_date, #[trigger] d[k].due_date) by {
            assert(d[k] == s[k]);
        }
        lemma_insert_position(d, t, j);
        assert(d.insert(j, t).push(s.last()) =~= s.insert(j, t));
    }
}

/// `insert_by_date` adds the one task, keeps the order, and takes nothing else in.
pub proof fn lemma_insert_by_date(s: Seq<TaskModel>, t: TaskModel)
    ensures
        insert_by_date(s, t).to_multiset() == s.to_multiset().insert(t),
        insert_by_date(s, t).len() == s.len() + 1,
        forall|i: int|
            0 <= i < insert_by_date(s, t).len() ==> #[trigger] insert_by_date(s, t)[i] == t
                || s.contains(insert_by_date(s, t)[i]),
        sorted_by_date(s) ==> sorted_by_date(insert_by_date(s, t)),
    decreases s.len(),
{
    broadcast use vstd::seq_lib::group_to_multiset_ensures;

    let r = insert_by_date(s, t);
    if s.len() == 0 {
        assert(seq![t] =~= Seq::<TaskModel>::empty().push(t));
        assert(s.to_multiset() =~= Multiset::<TaskModel>::empty());
    } else if date_lt(t.due_date, s.last().due_date) {
        let d = s.drop_last();
        let inner = insert_by_date(d, t);
        lemma_insert_by_date(d, t);
        assert(s =~= d.push(s.last()));
        assert(r.to_multiset() =~= s.to_multiset().insert(t));
        assert forall|i: int| 0 <= i < r.len() implies #[trigger] r[i] == t || s.contains(r[i]) by {
            if i < inner.len() {
                if inner[i] != t {
                    let k = choose|k: int| 0 <= k < d.len() && d[k] == inner[i];
                    assert(s[k] == r[i]);
                }
            } else {
                assert(s[s.len() - 1] == r[i]);
            }
        }
        if sorted_by_date(s) {
            assert(sorted_by_date(d));
            assert forall|i: int, j: int| 0 <= i < j < r.len() implies date_le(
                r[i].due_date,
                r[j].due_date,
            ) by {
                if j == r.len() - 1 && i < inner.len() {
                    if inner[i] != t {
                        let k = choose|k: int| 0 <= k < d.len() && d[k] == inner[i];
                        assert(s[k] == d[k]);
                        assert(date_le(s[k].due_date, s[s.len() - 1].due_date));
                    }
                }
            }
        }
    } else {
        assert(r.to_multiset() =~= s.to_multiset().insert(t));
        assert forall|i: int| 0 <= i < r.len() implies #[trigger] r[i] == t || s.contains(r[i]) by {
            if i < s.len() {
                assert(s[i] == r[i]);
            }
        }
        if sorted_by_date(s) {
            assert forall|i: int, j: int| 0 <= i < j < r.len() implies date_le(
                r[i].due_date,
                r[j].due_date,
            ) by {
                if j == r.len() - 1 {
                    assert(date_le(s[i].due_date, s[s.len() - 1].due_date) || i == s.len() - 1);
                }
            }
        }
    }
}

/// Sorting by date keeps the tasks and puts them in order.
pub proof fn lemma_sort_by_date(s: Seq<TaskModel>)
    ensures
        sort_by_date(s).to_multiset() == s.to_multiset(),
        sort_by_date(s).len() == s.len(),
        sorted_by_date(sort_by_date(s)),
    decreases s.len(),
{
    broadcast use vstd::seq_lib::group_to_multiset_ensures;

    if s.len() > 0 {
        let d = s.drop_last();
        lemma_sort_by_date(d);
        lemma_insert_by_date(sort_by_date(d), s.last());
        assert(s =~= d.push(s.last()));
    }
}

/// The tasks in order of due date, tasks due on the same day in their order in `v`.
pub fn sort_tasks(v: Vec<Task>) -> (r: Vec<Task>)
    ensures
        models(r@) == sort_by_date(models(v@)),
{
    let mut out: Vec<Task> = Vec::new();
    let n = v.len();
    let mut i: usize = 0;
    assert(models(v@.take(0)) =~= Seq::<TaskModel>::empty());
    while i < n
        invariant
            n == v@.len(),
            i <= n,
            models(out@) == sort_by_date(models(v@.take(i as int))),
        decreases n - i,
    {
        let t = v[i].copy();
        let ghost s = models(out@);
        let mut j: usize = out.len();
        while j > 0 && t.due_date().is_before(&out[j - 1].due_date())
            invariant
                j <= out@.len(),
                s == models(out@),
                forall|k: int| j <= k < s.len() ==> date_lt(t@.due_date, #[trigger] s[k].due_date),
            decreases j,
        {
            j = j - 1;
        }
        proof {
            lemma_insert_position(s, t@, j as int);
            assert(v@.take(i + 1).drop_last() =~= v@.take(i as int));
            assert(models(v@.take(i + 1)) =~= models(v@.take(i as int)).push(t@));
            let m = models(v@.take(i as int));
            assert(m.push(t@).drop_last() =~= m);
        }
        out.insert(j, t);
        assert(models(out@) =~= s.insert(j as int, t@));
        assert(sort_by_date(models(v@.take(i + 1))) == insert_by_date(
            sort_by_date(models(v@.take(i as int))),
            t@,
        ));
        i = i + 1;
    }
    assert(v@.take(n as int) =~= v@);
    out
}

} // verus!
