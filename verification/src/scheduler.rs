//! The scheduler's decision: which due task goes to which idle worker.
use vstd::prelude::*;

use crate::clock::unix_timestamp;
use crate::task::{Status, Task};
use crate::text::str_equal;
use crate::worker::{job_topic, job_topic_of, Worker};

verus! {

/// One task handed to one worker.
pub struct Job {
    /// The worker that gets the task.
    pub worker_id: String,
    /// The topic on which the task is sent to the worker.
    pub topic: String,
    /// The task as it is sent to the worker.
    pub task: Task,
    /// The task as it is to be stored once it is handed out: running on the
    /// worker.
    pub update: Task,
}

/// The text of each id of `ids`.
pub open spec fn id_texts(ids: Seq<String>) -> Seq<Seq<char>> {
    ids.map_values(|id: String| id@)
}

/// The ids of the tasks that `jobs` hand out, in order.
pub open spec fn job_task_ids(jobs: Seq<Job>) -> Seq<Seq<char>> {
    jobs.map_values(|j: Job| j.task.id@)
}

/// Whether task `t` may be handed out at time `now` when the tasks with ids
/// in `handed` were handed out in earlier rounds: its execution time has
/// come and it was not handed out before.
pub open spec fn may_run(t: Task, now: u64, handed: Seq<Seq<char>>) -> bool {
    t.status.execution_time() <= now && !handed.contains(t.id@)
}

/// The tasks that may be handed out at time `now`, in their order.
pub open spec fn runnable(tasks: Seq<Task>, now: u64, handed: Seq<Seq<char>>) -> Seq<Task>
    decreases tasks.len(),
{
    if tasks.len() == 0 {
        Seq::empty()
    } else {
        let earlier = runnable(tasks.drop_last(), now, handed);
        if may_run(tasks.last(), now, handed) {
            earlier.push(tasks.last())
        } else {
            earlier
        }
    }
}

/// The workers whose status is "Idle", in their order.
pub open spec fn idle_workers(workers: Seq<Worker>) -> Seq<Worker>
    decreases workers.len(),
{
    if workers.len() == 0 {
        Seq::empty()
    } else {
        let earlier = idle_workers(workers.drop_last());
        if workers.last().status@ == "Idle"@ {
            earlier.push(workers.last())
        } else {
            earlier
        }
    }
}

/// Task `t` as it stands once it is handed to worker `w`.
pub open spec fn running_on(t: Task, w: Worker) -> Task {
    Task { id: t.id, kind: t.kind, status: Status::Running(w.id) }
}

/// Whether `job` hands task `t` to worker `w`.
pub open spec fn job_for(job: Job, t: Task, w: Worker) -> bool {
    &&& job.worker_id == w.id
    &&& job.topic@ == job_topic_of(w.id@)
    &&& job.task == t
    &&& job.update == running_on(t, w)
}

/// Whether `jobs` is the plan for `tasks` and `workers` at time `now`, the
/// tasks with ids in `handed` having been handed out in earlier rounds: the
/// k-th runnable task goes to the k-th idle worker, for as long as both last.
pub open spec fn planned(
    tasks: Seq<Task>,
    workers: Seq<Worker>,
    now: u64,
    handed: Seq<Seq<char>>,
    jobs: Seq<Job>,
) -> bool {
    let r = runnable(tasks, now, handed);
    let i = idle_workers(workers);
    &&& jobs.len() == if r.len() <= i.len() { r.len() } else { i.len() }
    &&& forall|k: int| 0 <= k < jobs.len() ==> job_for(#[trigger] jobs[k], r[k], i[k])
}

/// Whether task id `id` is among `handed`.
fn was_handed_out(handed: &Vec<String>, id: &str) -> (b: bool)
    ensures
        b == id_texts(handed@).contains(id@),
{
    let n: usize = handed.len();
    for i in 0..n
        invariant
            n == handed@.len(),
            forall|j: int| 0 <= j < i ==> handed@[j]@ != id@,
    {
        if str_equal(handed[i].as_str(), id) {
            assert(id_texts(handed@)[i as int] == id@);
            return true;
        }
    }
    proof {
        if id_texts(handed@).contains(id@) {
            let j = choose|j: int| 0 <= j < id_texts(handed@).len() && id_texts(handed@)[j] == id@;
            assert(handed@[j]@ == id@);
        }
    }
    false
}

/// One round of the scheduler at time `now`: hands out the tasks that may
/// run to the idle workers, the first runnable task to the first idle
/// worker, the second to the second, and so on until either runs out.
///
/// `handed` holds the ids of the tasks handed out in earlier rounds, which
/// the store may still list as pending until their status update arrives.
/// They are not handed out again, and the ids of this round's tasks are
/// added to it.
pub fn plan_jobs(tasks: &Vec<Task>, workers: &Vec<Worker>, now: u64, handed: &mut Vec<String>) -> (jobs: Vec<Job>)
    ensures
        planned(tasks@, workers@, now, id_texts(old(handed)@), jobs@),
        id_texts(final(handed)@) == id_texts(old(handed)@) + job_task_ids(jobs@),
{
    let ghost before = id_texts(handed@);
    let mut due: Vec<Task> = Vec::new();
    let n_tasks: usize = tasks.len();
    for i in 0..n_tasks
        invariant
            n_tasks == tasks@.len(),
            before == id_texts(handed@),
            due@ == runnable(tasks@.take(i as int), now, before),
    {
        assert(tasks@.take(i + 1).drop_last() =~= tasks@.take(i as int));
        if tasks[i].status.get_execution_time() <= now && !was_handed_out(handed, tasks[i].id.as_str()) {
            due.push(tasks[i].duplicate());
        }
    }
    assert(tasks@.take(n_tasks as int) =~= tasks@);
    let mut idle: Vec<Worker> = Vec::new();
    let n_workers: usize = workers.len();
    for i in 0..n_workers
        invariant
            n_workers == workers@.len(),
            idle@ == idle_workers(workers@.take(i as int)),
    {
        assert(workers@.take(i + 1).drop_last() =~= workers@.take(i as int));
        if str_equal(workers[i].status.as_str(), "Idle") {
            idle.push(workers[i].duplicate());
        }
    }
    assert(workers@.take(n_workers as int) =~= workers@);
    let n: usize = if due.len() <= idle.len() {
        due.len()
    } else {
        idle.len()
    };
    let mut jobs: Vec<Job> = Vec::new();
    for k in 0..n
        invariant
            n <= due@.len(),
            n <= idle@.len(),
            jobs@.len() == k,
            forall|j: int| 0 <= j < k ==> job_for(#[trigger] jobs@[j], due@[j], idle@[j]),
            id_texts(handed@) =~= before + job_task_ids(jobs@),
    {
        let task = due[k].duplicate();
        let worker = &idle[k];
        let mut update = task.duplicate();
        update.updateStatus(Status::Running(worker.id.clone()));
        let ghost old_handed = handed@;
        handed.push(task.id.clone());
        assert(id_texts(handed@) =~= id_texts(old_handed).push(task.id@));
        let job = Job { worker_id: worker.id.clone(), topic: job_topic(worker.id.as_str()), task, update };
        let ghost old_jobs = jobs@;
        jobs.push(job);
        assert(job_task_ids(jobs@) =~= job_task_ids(old_jobs).push(jobs@[k as int].task.id@));
    }
    jobs
}

/// Whether `jobs` is the plan at Unix time `now`, which may lie before
/// 1970: nothing is due before 1970, since no execution time lies there.
pub open spec fn planned_at(
    tasks: Seq<Task>,
    workers: Seq<Worker>,
    now: i64,
    handed: Seq<Seq<char>>,
    jobs: Seq<Job>,
) -> bool {
    if now < 0 {
        jobs.len() == 0
    } else {
        planned(tasks, workers, now as u64, handed, jobs)
    }
}

/// One round of the scheduler at the current time, as `plan_jobs` does for
/// the time that the clock gives; a clock that reads before 1970 finds
/// nothing due.
pub fn plan_due_jobs(tasks: &Vec<Task>, workers: &Vec<Worker>, handed: &mut Vec<String>) -> (jobs: Vec<Job>)
    ensures
        exists|now: i64| planned_at(tasks@, workers@, now, id_texts(old(handed)@), jobs@),
        id_texts(final(handed)@) == id_texts(old(handed)@) + job_task_ids(jobs@),
{
    let now: i64 = unix_timestamp();
    if now < 0 {
        let jobs: Vec<Job> = Vec::new();
        assert(planned_at(tasks@, workers@, now, id_texts(handed@), jobs@));
        assert(id_texts(handed@) =~= id_texts(handed@) + job_task_ids(jobs@));
        return jobs;
    }
    let ghost before = id_texts(handed@);
    let jobs = plan_jobs(tasks, workers, now as u64, handed);
    assert(planned_at(tasks@, workers@, now, before, jobs@));
    jobs
}

proof fn lemma_runnable_members(tasks: Seq<Task>, now: u64, handed: Seq<Seq<char>>)
    ensures
        forall|k: int|
            0 <= k < runnable(tasks, now, handed).len() ==> {
                &&& may_run(#[trigger] runnable(tasks, now, handed)[k], now, handed)
                &&& exists|m: int| 0 <= m < tasks.len() && tasks[m] == runnable(tasks, now, handed)[k]
            },
        runnable(tasks, now, handed).len() <= tasks.len(),
    decreases tasks.len(),
{
    if tasks.len() > 0 {
        let t = tasks.drop_last();
        lemma_runnable_members(t, now, handed);
        let r = runnable(tasks, now, handed);
        assert forall|k: int| 0 <= k < r.len() implies {
            &&& may_run(#[trigger] r[k], now, handed)
            &&& exists|m: int| 0 <= m < tasks.len() && tasks[m] == r[k]
        } by {
            if k < runnable(t, now, handed).len() {
                assert(r[k] == runnable(t, now, handed)[k]);
                let m = choose|m: int| 0 <= m < t.len() && t[m] == runnable(t, now, handed)[k];
                assert(tasks[m] == t[m]);
            } else {
                assert(tasks[tasks.len() - 1] == r[k]);
            }
        }
    }
}

proof fn lemma_idle_members(workers: Seq<Worker>)
    ensures
        forall|k: int|
            0 <= k < idle_workers(workers).len() ==> {
                &&& (#[trigger] idle_workers(workers)[k]).status@ == "Idle"@
                &&& exists|m: int| 0 <= m < workers.len() && workers[m] == idle_workers(workers)[k]
            },
        idle_workers(workers).len() <= workers.len(),
    decreases workers.len(),
{
    if workers.len() > 0 {
        let t = workers.drop_last();
        lemma_idle_members(t);
        let r = idle_workers(workers);
        assert forall|k: int| 0 <= k < r.len() implies {
            &&& (#[trigger] r[k]).status@ == "Idle"@
            &&& exists|m: int| 0 <= m < workers.len() && workers[m] == r[k]
        } by {
            if k < idle_workers(t).len() {
                assert(r[k] == idle_workers(t)[k]);
                let m = choose|m: int| 0 <= m < t.len() && t[m] == idle_workers(t)[k];
                assert(workers[m] == t[m]);
            } else {
                assert(workers[workers.len() - 1] == r[k]);
            }
        }
    }
}

/// Whether no two tasks of `tasks` share an id.
pub open spec fn distinct_task_ids(tasks: Seq<Task>) -> bool {
    forall|a: int, b: int|
        0 <= a < tasks.len() && 0 <= b < tasks.len() && a != b ==> #[trigger] tasks[a].id@
            != #[trigger] tasks[b].id@
}

/// Whether no two workers of `workers` share an id.
pub open spec fn distinct_worker_ids(workers: Seq<Worker>) -> bool {
    forall|a: int, b: int|
        0 <= a < workers.len() && 0 <= b < workers.len() && a != b ==> #[trigger] workers[a].id@
            != #[trigger] workers[b].id@
}

proof fn lemma_runnable_distinct(tasks: Seq<Task>, now: u64, handed: Seq<Seq<char>>)
    requires
        distinct_task_ids(tasks),
    ensures
        distinct_task_ids(runnable(tasks, now, handed)),
    decreases tasks.len(),
{
    if tasks.len() > 0 {
        let t = tasks.drop_last();
        assert(distinct_task_ids(t)) by {
            assert forall|a: int, b: int|
                0 <= a < t.len() && 0 <= b < t.len() && a != b implies #[trigger] t[a].id@
                != #[trigger] t[b].id@ by {
                assert(t[a] == tasks[a] && t[b] == tasks[b]);
            }
        }
        lemma_runnable_distinct(t, now, handed);
        lemma_runnable_members(t, now, handed);
        let e = runnable(t, now, handed);
        let r = runnable(tasks, now, handed);
        if tasks.last().status.execution_time() <= now {
            assert forall|a: int, b: int|
                0 <= a < r.len() && 0 <= b < r.len() && a != b implies #[trigger] r[a].id@
                != #[trigger] r[b].id@ by {
                if a < e.len() && b < e.len() {
                    assert(r[a] == e[a] && r[b] == e[b]);
                } else if a < e.len() {
                    assert(r[a] == e[a]);
                    let m = choose|m: int| 0 <= m < t.len() && t[m] == e[a];
                    assert(tasks[m] == t[m]);
                    assert(r[b] == tasks[tasks.len() - 1]);
                } else {
                    assert(r[b] == e[b]);
                    let m = choose|m: int| 0 <= m < t.len() && t[m] == e[b];
                    assert(tasks[m] == t[m]);
                    assert(r[a] == tasks[tasks.len() - 1]);
                }
            }
        }
    }
}

proof fn lemma_idle_distinct(workers: Seq<Worker>)
    requires
        distinct_worker_ids(workers),
    ensures
        distinct_worker_ids(idle_workers(workers)),
    decreases workers.len(),
{
    if workers.len() > 0 {
        let t = workers.drop_last();
        assert(distinct_worker_ids(t)) by {
            assert forall|a: int, b: int|
                0 <= a < t.len() && 0 <= b < t.len() && a != b implies #[trigger] t[a].id@
                != #[trigger] t[b].id@ by {
                assert(t[a] == workers[a] && t[b] == workers[b]);
            }
        }
        lemma_idle_distinct(t);
        lemma_idle_members(t);
        let e = idle_workers(t);
        let r = idle_workers(workers);
        if workers.last().status@ == "Idle"@ {
            assert forall|a: int, b: int|
                0 <= a < r.len() && 0 <= b < r.len() && a != b implies #[trigger] r[a].id@
                != #[trigger] r[b].id@ by {
                if a < e.len() && b < e.len() {
                    assert(r[a] == e[a] && r[b] == e[b]);
                } else if a < e.len() {
                    assert(r[a] == e[a]);
                    let m = choose|m: int| 0 <= m < t.len() && t[m] == e[a];
                    assert(workers[m] == t[m]);
                    assert(r[b] == workers[workers.len() - 1]);
                } else {
                    assert(r[b] == e[b]);
                    let m = choose|m: int| 0 <= m < t.len() && t[m] == e[b];
                    assert(workers[m] == t[m]);
                    assert(r[a] == workers[workers.len() - 1]);
                }
            }
        }
    }
}

/// Every planned job hands out a task of the input whose execution time has
/// come and that no earlier round handed out, to an idle worker of the input, and records it as running on that
/// worker. When the input holds only pending tasks, so does every job.
pub proof fn lemma_plan_hands_out_due_tasks(
    tasks: Seq<Task>,
    workers: Seq<Worker>,
    now: u64,
    handed: Seq<Seq<char>>,
    jobs: Seq<Job>,
)
    requires
        planned(tasks, workers, now, handed, jobs),
    ensures
        forall|k: int|
            0 <= k < jobs.len() ==> {
                &&& (#[trigger] jobs[k]).task.status.execution_time() <= now
                &&& !handed.contains(jobs[k].task.id@)
                &&& tasks.contains(jobs[k].task)
                &&& exists|w: Worker| workers.contains(w) && w.status@ == "Idle"@ && w.id == jobs[k].worker_id
                &&& jobs[k].update.status == Status::Running(jobs[k].worker_id)
                &&& jobs[k].update.id == jobs[k].task.id
            },
        (forall|m: int| 0 <= m < tasks.len() ==> tasks[m].status is Pending) ==> (forall|k: int|
            0 <= k < jobs.len() ==> (#[trigger] jobs[k]).task.status is Pending),
{
    lemma_runnable_members(tasks, now, handed);
    lemma_idle_members(workers);
    let r = runnable(tasks, now, handed);
    let i = idle_workers(workers);
    assert forall|k: int| 0 <= k < jobs.len() implies {
        &&& (#[trigger] jobs[k]).task.status.execution_time() <= now
        &&& !handed.contains(jobs[k].task.id@)
        &&& tasks.contains(jobs[k].task)
        &&& exists|w: Worker| workers.contains(w) && w.status@ == "Idle"@ && w.id == jobs[k].worker_id
        &&& jobs[k].update.status == Status::Running(jobs[k].worker_id)
        &&& jobs[k].update.id == jobs[k].task.id
    } by {
        assert(job_for(jobs[k], r[k], i[k]));
        assert(r[k].status.execution_time() <= now);
        let m = choose|m: int| 0 <= m < tasks.len() && tasks[m] == r[k];
        let n = choose|n: int| 0 <= n < workers.len() && workers[n] == i[k];
        assert(workers.contains(i[k]));
        assert(i[k].status@ == "Idle"@);
    }
    if forall|m: int| 0 <= m < tasks.len() ==> tasks[m].status is Pending {
        assert forall|k: int| 0 <= k < jobs.len() implies (#[trigger] jobs[k]).task.status is Pending by {
            assert(job_for(jobs[k], r[k], i[k]));
            let m = choose|m: int| 0 <= m < tasks.len() && tasks[m] == r[k];
        }
    }
}

/// No task is handed out twice and no worker gets two tasks in one plan, as
/// long as tasks and workers have distinct ids (as the store keeps them).
pub proof fn lemma_plan_hands_out_each_once(
    tasks: Seq<Task>,
    workers: Seq<Worker>,
    now: u64,
    handed: Seq<Seq<char>>,
    jobs: Seq<Job>,
)
    requires
        planned(tasks, workers, now, handed, jobs),
        distinct_task_ids(tasks),
        distinct_worker_ids(workers),
    ensures
        forall|a: int, b: int|
            0 <= a < jobs.len() && 0 <= b < jobs.len() && a != b ==> #[trigger] jobs[a].task.id@
                != #[trigger] jobs[b].task.id@,
        forall|a: int, b: int|
            0 <= a < jobs.len() && 0 <= b < jobs.len() && a != b ==> #[trigger] jobs[a].worker_id@
                != #[trigger] jobs[b].worker_id@,
{
    lemma_runnable_distinct(tasks, now, handed);
    lemma_idle_distinct(workers);
    let r = runnable(tasks, now, handed);
    let i = idle_workers(workers);
    assert forall|a: int, b: int|
        0 <= a < jobs.len() && 0 <= b < jobs.len() && a != b implies #[trigger] jobs[a].task.id@
        != #[trigger] jobs[b].task.id@ by {
        assert(job_for(jobs[a], r[a], i[a]));
        assert(job_for(jobs[b], r[b], i[b]));
    }
    assert forall|a: int, b: int|
        0 <= a < jobs.len() && 0 <= b < jobs.len() && a != b implies #[trigger] jobs[a].worker_id@
        != #[trigger] jobs[b].worker_id@ by {
        assert(job_for(jobs[a], r[a], i[a]));
        assert(job_for(jobs[b], r[b], i[b]));
    }
}

/// As long as there are both a runnable task and an idle worker, the plan
/// hands out at least one task; no more jobs are planned than either.
pub proof fn lemma_plan_size(
    tasks: Seq<Task>,
    workers: Seq<Worker>,
    now: u64,
    handed: Seq<Seq<char>>,
    jobs: Seq<Job>,
)
    requires
        planned(tasks, workers, now, handed, jobs),
    ensures
        jobs.len() <= runnable(tasks, now, handed).len(),
        jobs.len() <= idle_workers(workers).len(),
        runnable(tasks, now, handed).len() > 0 && idle_workers(workers).len() > 0 ==> jobs.len() > 0,
{
}

/// Each task is processed only once: a task handed out in one round is
/// handed out in no later round, as long as the ids that a round adds to the
/// list of handed-out tasks are kept for the later rounds.
pub proof fn lemma_no_task_handed_out_twice(
    tasks1: Seq<Task>,
    workers1: Seq<Worker>,
    now1: u64,
    handed1: Seq<Seq<char>>,
    jobs1: Seq<Job>,
    tasks2: Seq<Task>,
    workers2: Seq<Worker>,
    now2: u64,
    handed2: Seq<Seq<char>>,
    jobs2: Seq<Job>,
)
    requires
        planned(tasks1, workers1, now1, handed1, jobs1),
        (handed1 + job_task_ids(jobs1)).is_prefix_of(handed2),
        planned(tasks2, workers2, now2, handed2, jobs2),
    ensures
        forall|a: int, b: int|
            0 <= a < jobs1.len() && 0 <= b < jobs2.len() ==> #[trigger] jobs1[a].task.id@
                != #[trigger] jobs2[b].task.id@,
{
    lemma_runnable_members(tasks2, now2, handed2);
    let r2 = runnable(tasks2, now2, handed2);
    let i2 = idle_workers(workers2);
    let after1 = handed1 + job_task_ids(jobs1);
    assert forall|a: int, b: int|
        0 <= a < jobs1.len() && 0 <= b < jobs2.len() implies #[trigger] jobs1[a].task.id@
        != #[trigger] jobs2[b].task.id@ by {
        assert(job_for(jobs2[b], r2[b], i2[b]));
        assert(may_run(r2[b], now2, handed2));
        let p = handed1.len() + a;
        assert(after1[p] == jobs1[a].task.id@);
        assert(handed2[p] == after1[p]);
        assert(handed2.contains(jobs1[a].task.id@));
    }
}

/// A round only adds to the list of handed-out tasks: when the list that a
/// round starts from extends an earlier list, so does the list it ends with.
/// Round after round, the list of any round extends that of every earlier
/// round, as `lemma_no_task_handed_out_twice` asks.
pub proof fn lemma_handed_out_only_grows(earlier: Seq<Seq<char>>, before: Seq<Seq<char>>, jobs: Seq<Job>)
    requires
        earlier.is_prefix_of(before),
    ensures
        earlier.is_prefix_of(before + job_task_ids(jobs)),
{
    assert(earlier =~= (before + job_task_ids(jobs)).subrange(0, earlier.len() as int));
}

/// How many tasks of `tasks` may be handed out at time `now`.
pub open spec fn runnable_count(tasks: Seq<Task>, now: u64, handed: Seq<Seq<char>>) -> nat
    decreases tasks.len(),
{
    if tasks.len() == 0 {
        0
    } else {
        runnable_count(tasks.drop_last(), now, handed) + if may_run(tasks.last(), now, handed) {
            1nat
        } else {
            0nat
        }
    }
}

/// How many workers of `workers` are idle.
pub open spec fn idle_count(workers: Seq<Worker>) -> nat
    decreases workers.len(),
{
    if workers.len() == 0 {
        0
    } else {
        idle_count(workers.drop_last()) + if workers.last().status@ == "Idle"@ {
            1nat
        } else {
            0nat
        }
    }
}

/// The runnable tasks are every task whose execution time has come and that
/// was not handed out before, once each and in their order: the task at
/// index `i` comes after all such tasks before it.
pub proof fn lemma_runnable_keeps_every_due_task(tasks: Seq<Task>, now: u64, handed: Seq<Seq<char>>)
    ensures
        runnable(tasks, now, handed).len() == runnable_count(tasks, now, handed),
        forall|i: int|
            0 <= i < tasks.len() && may_run(#[trigger] tasks[i], now, handed) ==> {
                &&& runnable_count(tasks.take(i), now, handed) < runnable(tasks, now, handed).len()
                &&& runnable(tasks, now, handed)[runnable_count(tasks.take(i), now, handed) as int] == tasks[i]
            },
    decreases tasks.len(),
{
    if tasks.len() > 0 {
        let t = tasks.drop_last();
        lemma_runnable_keeps_every_due_task(t, now, handed);
        assert forall|i: int| 0 <= i < tasks.len() && may_run(#[trigger] tasks[i], now, handed) implies {
            &&& runnable_count(tasks.take(i), now, handed) < runnable(tasks, now, handed).len()
            &&& runnable(tasks, now, handed)[runnable_count(tasks.take(i), now, handed) as int] == tasks[i]
        } by {
            if i < tasks.len() - 1 {
                assert(t.take(i) =~= tasks.take(i));
                assert(t[i] == tasks[i]);
            } else {
                assert(tasks.take(i) =~= t);
            }
        }
    }
}

/// The idle workers are every worker whose status is "Idle", once each and
/// in their order.
pub proof fn lemma_idle_keeps_every_idle_worker(workers: Seq<Worker>)
    ensures
        idle_workers(workers).len() == idle_count(workers),
        forall|i: int|
            0 <= i < workers.len() && (#[trigger] workers[i]).status@ == "Idle"@ ==> {
                &&& idle_count(workers.take(i)) < idle_workers(workers).len()
                &&& idle_workers(workers)[idle_count(workers.take(i)) as int] == workers[i]
            },
    decreases workers.len(),
{
    if workers.len() > 0 {
        let t = workers.drop_last();
        lemma_idle_keeps_every_idle_worker(t);
        assert forall|i: int| 0 <= i < workers.len() && (#[trigger] workers[i]).status@ == "Idle"@ implies {
            &&& idle_count(workers.take(i)) < idle_workers(workers).len()
            &&& idle_workers(workers)[idle_count(workers.take(i)) as int] == workers[i]
        } by {
            if i < workers.len() - 1 {
                assert(t.take(i) =~= workers.take(i));
                assert(t[i] == workers[i]);
            } else {
                assert(workers.take(i) =~= t);
            }
        }
    }
}

/// A task that may be handed out is left waiting only when every idle
/// worker got a job: otherwise some job hands it out. And every idle worker
/// is left without a job only when every task that may run was handed out.
pub proof fn lemma_plan_leaves_nothing_undone(
    tasks: Seq<Task>,
    workers: Seq<Worker>,
    now: u64,
    handed: Seq<Seq<char>>,
    jobs: Seq<Job>,
)
    requires
        planned(tasks, workers, now, handed, jobs),
    ensures
        forall|i: int|
            0 <= i < tasks.len() && may_run(#[trigger] tasks[i], now, handed) ==> (exists|k: int|
                0 <= k < jobs.len() && jobs[k].task == tasks[i]) || jobs.len() == idle_count(workers),
        forall|i: int|
            0 <= i < workers.len() && (#[trigger] workers[i]).status@ == "Idle"@ ==> (exists|k: int|
                0 <= k < jobs.len() && jobs[k].worker_id == workers[i].id) || jobs.len() == runnable_count(
                tasks,
                now,
                handed,
            ),
{
    lemma_runnable_keeps_every_due_task(tasks, now, handed);
    lemma_idle_keeps_every_idle_worker(workers);
    let r = runnable(tasks, now, handed);
    let w = idle_workers(workers);
    assert forall|i: int| 0 <= i < tasks.len() && may_run(#[trigger] tasks[i], now, handed) implies (exists|k: int|
        0 <= k < jobs.len() && jobs[k].task == tasks[i]) || jobs.len() == idle_count(workers) by {
        let p = runnable_count(tasks.take(i), now, handed) as int;
        if p < jobs.len() {
            assert(job_for(jobs[p], r[p], w[p]));
            assert(jobs[p].task == tasks[i]);
        }
    }
    assert forall|i: int| 0 <= i < workers.len() && (#[trigger] workers[i]).status@ == "Idle"@ implies (exists|k: int|
        0 <= k < jobs.len() && jobs[k].worker_id == workers[i].id) || jobs.len() == runnable_count(tasks, now, handed) by {
        let p = idle_count(workers.take(i)) as int;
        if p < jobs.len() {
            assert(job_for(jobs[p], r[p], w[p]));
            assert(jobs[p].worker_id == workers[i].id);
        }
    }
}

} // verus!
