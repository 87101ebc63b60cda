//! The rules of the HTTP API that do not depend on HTTP.
use vstd::prelude::*;

use crate::task::{Status, Task};
use crate::text::str_equal;

verus! {

/// A filter of the task listing from a query parameter: an empty parameter
/// means no filter.
pub fn query_filter(query: String) -> (r: Option<String>)
    ensures
        r == (if query@.len() == 0 {
            None
        } else {
            Some(query)
        }),
{
    if query.as_str().is_empty() {
        None
    } else {
        Some(query)
    }
}

/// Whether a task with status `status` may be deleted: pending and completed
/// tasks may, a running task may not, since a worker is at work on it.
pub fn may_delete(status: &Status) -> (b: bool)
    ensures
        b == !(status is Running),
{
    match status {
        Status::Running(_) => false,
        _ => true,
    }
}

/// The tasks of `tasks` whose kind is named `kind`, in their order; all of
/// them when there is no kind to filter by.
pub open spec fn of_kind(tasks: Seq<Task>, kind: Option<Seq<char>>) -> Seq<Task>
    decreases tasks.len(),
{
    if tasks.len() == 0 {
        Seq::empty()
    } else {
        let earlier = of_kind(tasks.drop_last(), kind);
        match kind {
            Some(k) => if tasks.last().kind.name() == k {
                earlier.push(tasks.last())
            } else {
                earlier
            },
            None => earlier.push(tasks.last()),
        }
    }
}

/// Keeps the tasks whose kind is named `kind` ("Fizz", "Buzz" or
/// "FizzBuzz"), in their order; keeps all of them when `kind` is `None`.
pub fn select_kind(tasks: Vec<Task>, kind: Option<&str>) -> (r: Vec<Task>)
    ensures
        r@ == of_kind(
            tasks@,
            match kind {
                Some(k) => Some(k@),
                None => None,
            },
        ),
        kind is None ==> r@ == tasks@,
{
    let ghost wanted = match kind {
        Some(k) => Some(k@),
        None => None,
    };
    let mut kept: Vec<Task> = Vec::new();
    let n: usize = tasks.len();
    for i in 0..n
        invariant
            n == tasks@.len(),
            wanted == match kind {
                Some(k) => Some(k@),
                None => None::<Seq<char>>,
            },
            kept@ == of_kind(tasks@.take(i as int), wanted),
    {
        assert(tasks@.take(i + 1).drop_last() =~= tasks@.take(i as int));
        let keep = match kind {
            Some(k) => str_equal(tasks[i].kind.as_string().as_str(), k),
            None => true,
        };
        if keep {
            kept.push(tasks[i].duplicate());
        }
    }
    assert(tasks@.take(n as int) =~= tasks@);
    proof {
        lemma_no_kind_keeps_every_task(tasks@);
    }
    kept
}

/// A listing filtered by kind holds only tasks of that kind, each taken
/// from the unfiltered list, and holds every task of that kind.
pub proof fn lemma_kind_filter(tasks: Seq<Task>, kind: Seq<char>)
    ensures
        forall|k: int|
            0 <= k < of_kind(tasks, Some(kind)).len() ==> (#[trigger] of_kind(tasks, Some(kind))[k]).kind.name()
                == kind && tasks.contains(of_kind(tasks, Some(kind))[k]),
        forall|m: int|
            0 <= m < tasks.len() && (#[trigger] tasks[m]).kind.name() == kind ==> of_kind(
                tasks,
                Some(kind),
            ).contains(tasks[m]),
    decreases tasks.len(),
{
    if tasks.len() > 0 {
        let t = tasks.drop_last();
        lemma_kind_filter(t, kind);
        let e = of_kind(t, Some(kind));
        let r = of_kind(tasks, Some(kind));
        assert forall|k: int| 0 <= k < r.len() implies (#[trigger] r[k]).kind.name() == kind
            && tasks.contains(r[k]) by {
            if k < e.len() {
                assert(r[k] == e[k]);
                let m = choose|m: int| 0 <= m < t.len() && t[m] == e[k];
                assert(tasks[m] == t[m]);
            } else {
                assert(tasks[tasks.len() - 1] == r[k]);
            }
        }
        assert forall|m: int| 0 <= m < tasks.len() && (#[trigger] tasks[m]).kind.name() == kind implies r.contains(
            tasks[m],
        ) by {
            if m < tasks.len() - 1 {
                assert(t[m] == tasks[m]);
                let j = choose|j: int| 0 <= j < e.len() && e[j] == t[m];
                assert(r[j] == e[j]);
            } else {
                assert(r[r.len() - 1] == tasks[m]);
            }
        }
    }
}

/// A listing with no kind to filter by is the listing unchanged: every
/// task, whatever its status, in its order.
pub proof fn lemma_no_kind_keeps_every_task(tasks: Seq<Task>)
    ensures
        of_kind(tasks, None) == tasks,
    decreases tasks.len(),
{
    if tasks.len() > 0 {
        lemma_no_kind_keeps_every_task(tasks.drop_last());
        assert(tasks.drop_last().push(tasks.last()) =~= tasks);
    }
}

/// How many tasks of `tasks` are of the kind named `kind`.
pub open spec fn kind_count(tasks: Seq<Task>, kind: Seq<char>) -> nat
    decreases tasks.len(),
{
    if tasks.len() == 0 {
        0
    } else {
        kind_count(tasks.drop_last(), kind) + if tasks.last().kind.name() == kind {
            1nat
        } else {
            0nat
        }
    }
}

/// A listing filtered by kind keeps every task of that kind once, in its
/// place: as many tasks as there are of that kind, and the task at index
/// `i` of that kind comes after all tasks of that kind before it.
pub proof fn lemma_kind_filter_keeps_every_match(tasks: Seq<Task>, kind: Seq<char>)
    ensures
        of_kind(tasks, Some(kind)).len() == kind_count(tasks, kind),
        forall|i: int|
            0 <= i < tasks.len() && (#[trigger] tasks[i]).kind.name() == kind ==> {
                &&& kind_count(tasks.take(i), kind) < of_kind(tasks, Some(kind)).len()
                &&& of_kind(tasks, Some(kind))[kind_count(tasks.take(i), kind) as int] == tasks[i]
            },
    decreases tasks.len(),
{
    if tasks.len() > 0 {
        let t = tasks.drop_last();
        lemma_kind_filter_keeps_every_match(t, kind);
        assert forall|i: int| 0 <= i < tasks.len() && (#[trigger] tasks[i]).kind.name() == kind implies {
            &&& kind_count(tasks.take(i), kind) < of_kind(tasks, Some(kind)).len()
            &&& of_kind(tasks, Some(kind))[kind_count(tasks.take(i), kind) as int] == tasks[i]
        } by {
            if i < tasks.len() - 1 {
                assert(t.take(i) =~= tasks.take(i));
                assert(t[i] == tasks[i]);
            } else {
                assert(tasks.take(i) =~= t);
            }
        }
    }
}

} // verus!
