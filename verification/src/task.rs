//! Tasks: their kind, their status and their life cycle.
use vstd::prelude::*;

use crate::clock::unix_timestamp;
use crate::ids::{is_id, random_id};
use crate::text::str_equal;

verus! {

/// The kind of work a task stands for.
#[derive(Clone, Copy, Debug)]
pub enum Type {
    Fizz,
    Buzz,
    FizzBuzz,
}

/// The message of a task creation that names no known kind.
pub open spec fn bad_kind_message() -> Seq<char> {
    "Error while creating the new task, type was incorrect."@
}

/// The message of an attempt to run a task that is not pending.
pub open spec fn not_pending_message() -> Seq<char> {
    "Task is not in pending mode. It cannot be executed..."@
}

impl Type {
    /// The name under which a kind is stored and requested.
    pub open spec fn name(self) -> Seq<char> {
        match self {
            Type::Fizz => "Fizz"@,
            Type::Buzz => "Buzz"@,
            Type::FizzBuzz => "FizzBuzz"@,
        }
    }

    /// The kind with the given name, if there is one.
    pub open spec fn named(name: Seq<char>) -> Option<Type> {
        if name == "Fizz"@ {
            Some(Type::Fizz)
        } else if name == "Buzz"@ {
            Some(Type::Buzz)
        } else if name == "FizzBuzz"@ {
            Some(Type::FizzBuzz)
        } else {
            None
        }
    }

    /// How many seconds the work of a kind takes.
    pub open spec fn seconds(self) -> u64 {
        match self {
            Type::Fizz => 3,
            Type::Buzz => 5,
            Type::FizzBuzz => 15,
        }
    }

    /// What a worker prints in front of the task's id once the work is done.
    pub open spec fn announcement(self) -> Seq<char> {
        match self {
            Type::Fizz => "Fizz"@,
            Type::Buzz => "Buzz"@,
            Type::FizzBuzz => "Fizz Buzz"@,
        }
    }

    /// The kind named `kind`, or `None` for any other name.
    pub fn retrieve(kind: &str) -> (r: Option<Type>)
        ensures
            r == Type::named(kind@),
    {
        if str_equal(kind, "Fizz") {
            Some(Type::Fizz)
        } else if str_equal(kind, "Buzz") {
            Some(Type::Buzz)
        } else if str_equal(kind, "FizzBuzz") {
            Some(Type::FizzBuzz)
        } else {
            None
        }
    }

    /// The name of the kind.
    pub fn as_string(self) -> (s: String)
        ensures
            s@ == self.name(),
    {
        match self {
            Type::Fizz => String::from_str("Fizz"),
            Type::Buzz => String::from_str("Buzz"),
            Type::FizzBuzz => String::from_str("FizzBuzz"),
        }
    }

    /// How many seconds the work of the kind takes: 3 for Fizz, 5 for Buzz
    /// and 15 for FizzBuzz.
    pub fn duration(self) -> (d: u64)
        ensures
            d == self.seconds(),
    {
        match self {
            Type::Fizz => 3,
            Type::Buzz => 5,
            Type::FizzBuzz => 15,
        }
    }

    /// The line that announces the end of the work on task `id`:
    /// "Fizz {id}", "Buzz {id}" or "Fizz Buzz {id}".
    pub fn announcement_line(self, id: &str) -> (line: String)
        ensures
            line@ == self.announcement() + " "@ + id@,
    {
        let mut line = match self {
            Type::Fizz => String::from_str("Fizz"),
            Type::Buzz => String::from_str("Buzz"),
            Type::FizzBuzz => String::from_str("Fizz Buzz"),
        };
        line.append(" ");
        line.append(id);
        line
    }
}

/// Where a task stands.
#[derive(Clone, Debug)]
pub enum Status {
    /// Waiting; the number is the Unix time at which it may run.
    Pending(u64),
    /// Handed to the worker with the given id.
    Running(String),
    Completed,
}

impl Status {
    /// The name under which a status is stored and filtered.
    pub open spec fn name(&self) -> Seq<char> {
        match self {
            Status::Pending(_) => "Pending"@,
            Status::Running(_) => "Running"@,
            Status::Completed => "Completed"@,
        }
    }

    /// The execution time of a pending status; 0 for the others.
    pub open spec fn execution_time(&self) -> u64 {
        match self {
            Status::Pending(t) => *t,
            _ => 0,
        }
    }

    /// The worker of a running status; empty for the others.
    pub open spec fn worker(&self) -> Seq<char> {
        match self {
            Status::Running(w) => w@,
            _ => Seq::empty(),
        }
    }

    /// The name of the status: "Pending", "Running" or "Completed".
    pub fn as_string(&self) -> (s: String)
        ensures
            s@ == self.name(),
    {
        match self {
            Status::Pending(_) => String::from_str("Pending"),
            Status::Running(_) => String::from_str("Running"),
            Status::Completed => String::from_str("Completed"),
        }
    }

    /// The execution time of a pending task, and 0 otherwise.
    pub fn get_execution_time(&self) -> (t: u64)
        ensures
            t == self.execution_time(),
    {
        match self {
            Status::Pending(x) => *x,
            _ => 0,
        }
    }

    /// The id of the worker of a running task, and the empty string otherwise.
    pub fn get_worker(&self) -> (w: String)
        ensures
            w@ == self.worker(),
    {
        match self {
            Status::Running(x) => x.clone(),
            _ => String::new(),
        }
    }

    /// A copy of the status.
    pub fn duplicate(&self) -> (s: Status)
        ensures
            s == *self,
    {
        match self {
            Status::Pending(x) => Status::Pending(*x),
            Status::Running(x) => Status::Running(x.clone()),
            Status::Completed => Status::Completed,
        }
    }
}

/// A unit of work: its id, its kind and where it stands.
#[derive(Clone, Debug)]
pub struct Task {
    pub id: String,
    pub kind: Type,
    pub status: Status,
}

impl Task {
    /// Whether `result` is what `create(id, when, kind)` gives back.
    pub open spec fn created(id: String, when: u64, kind: Seq<char>, result: Result<Task, &str>) -> bool {
        match Type::named(kind) {
            Some(k) => result == Ok::<Task, &str>(Task { id, kind: k, status: Status::Pending(when) }),
            None => result is Err && result->Err_0@ == bad_kind_message(),
        }
    }

    /// A pending task with the given id that may run from time `when` on, if
    /// `kind` names a kind; an error otherwise.
    pub fn create(id: String, when: u64, kind: String) -> (r: Result<Task, &'static str>)
        ensures
            Task::created(id, when, kind@, r),
    {
        let kind = Type::retrieve(kind.as_str());
        match kind {
            None => Err("Error while creating the new task, type was incorrect."),
            Some(k) => Ok(Task { id, kind: k, status: Status::Pending(when) }),
        }
    }

    /// A new pending task of the named kind that may run from time `when` on,
    /// under a fresh random id; an error if `kind` names no kind.
    pub fn new(when: u64, kind: String) -> (r: Result<Task, &'static str>)
        ensures
            r is Ok <==> Type::named(kind@) is Some,
            r matches Err(e) ==> e@ == bad_kind_message(),
            r matches Ok(t) ==> {
                &&& is_id(t.id@)
                &&& Some(t.kind) == Type::named(kind@)
                &&& t.status == Status::Pending(when)
            },
    {
        let id = Task::randomId();
        Task::create(id, when, kind)
    }

    #[allow(non_snake_case)]
    fn randomId() -> (id: String)
        ensures
            is_id(id@),
    {
        random_id()
    }

    /// Replaces the status of the task.
    #[allow(non_snake_case)]
    pub fn updateStatus(&mut self, status: Status)
        ensures
            final(self).id == old(self).id,
            final(self).kind == old(self).kind,
            final(self).status == status,
    {
        self.status = status;
    }

    /// A copy of the task.
    pub fn duplicate(&self) -> (t: Task)
        ensures
            t == *self,
    {
        Task { id: self.id.clone(), kind: self.kind, status: self.status.duplicate() }
    }

    /// Whether a pending task with execution time `time` is due at Unix
    /// time `now`: the execution time has come.
    pub open spec fn due(time: u64, now: i64) -> bool {
        now >= 0 && now as int >= time as int
    }

    /// Whether `after` and `r` are what starting the work on `before` by
    /// worker `worker` at time `now` gives.
    ///
    /// A pending task that is due becomes running on that worker and `Ok(true)`
    /// comes back: the work is to be done now. A pending task that is not due
    /// yet is left as it is and `Ok(false)` comes back: it waits for a later
    /// round. A task that is not pending is left as it is and refused.
    pub open spec fn start_outcome(
        before: Task,
        worker: Seq<char>,
        now: i64,
        after: Task,
        r: Result<bool, &str>,
    ) -> bool {
        &&& after.id == before.id
        &&& after.kind == before.kind
        &&& match before.status {
            Status::Pending(t) => if Task::due(t, now) {
                &&& r == Ok::<bool, &str>(true)
                &&& after.status is Running
                &&& after.status.worker() == worker
            } else {
                r == Ok::<bool, &str>(false) && after.status == before.status
            },
            _ => {
                &&& r is Err
                &&& r->Err_0@ == not_pending_message()
                &&& after.status == before.status
            },
        }
    }

    /// Starts the work on the task by worker `workerId` at time `now`, as
    /// `start_outcome` describes.
    #[allow(non_snake_case)]
    pub fn start_execution_at(&mut self, workerId: &str, now: i64) -> (r: Result<bool, &'static str>)
        ensures
            Task::start_outcome(*old(self), workerId@, now, *final(self), r),
    {
        match self.status {
            Status::Pending(execution_time) => {
                if now < 0 || (now as u64) < execution_time {
                    // Not due yet: leave it for the next round.
                    return Ok(false);
                }
                self.updateStatus(Status::Running(String::from_str(workerId)));
                Ok(true)
            },
            _ => Err("Task is not in pending mode. It cannot be executed..."),
        }
    }

    /// Starts the work on the task by worker `workerId` at the current time,
    /// as `start_execution_at` does for the time that the clock gives.
    #[allow(non_snake_case)]
    pub fn start_execution(&mut self, workerId: &str) -> (r: Result<bool, &'static str>)
        ensures
            exists|now: i64| Task::start_outcome(*old(self), workerId@, now, *final(self), r),
    {
        let now: i64 = unix_timestamp();
        let r = self.start_execution_at(workerId, now);
        assert(Task::start_outcome(*old(self), workerId@, now, *self, r));
        r
    }

    /// Marks the task as completed once its work is done.
    pub fn finish_execution(&mut self)
        ensures
            final(self).id == old(self).id,
            final(self).kind == old(self).kind,
            final(self).status == Status::Completed,
    {
        self.updateStatus(Status::Completed);
    }
}

/// The name of every kind reads back as that kind.
pub proof fn lemma_kind_names_read_back(k: Type)
    ensures
        Type::named(k.name()) == Some(k),
{
    reveal_strlit("Fizz");
    reveal_strlit("Buzz");
    reveal_strlit("FizzBuzz");
    assert("Fizz"@[0] != "Buzz"@[0]);
    assert("Fizz"@.len() != "FizzBuzz"@.len());
}

/// A task runs at most once: once a start has handed it to a worker, every
/// later start is refused and leaves the task as it is.
pub proof fn lemma_started_task_is_not_restarted(
    t0: Task,
    w0: Seq<char>,
    now0: i64,
    t1: Task,
    w1: Seq<char>,
    now1: i64,
    t2: Task,
    r1: Result<bool, &str>,
)
    requires
        Task::start_outcome(t0, w0, now0, t1, Ok(true)),
        Task::start_outcome(t1, w1, now1, t2, r1),
    ensures
        r1 is Err,
        t2 == t1,
{
}

/// A completed task is never started again.
pub proof fn lemma_completed_task_is_not_started(t: Task, w: Seq<char>, now: i64, after: Task, r: Result<bool, &str>)
    requires
        t.status == Status::Completed,
        Task::start_outcome(t, w, now, after, r),
    ensures
        r is Err,
        after == t,
{
}

/// A task is run only once its execution time has come: a start that
/// hands it to a worker finds it pending with an execution time at or
/// before the time of the start.
pub proof fn lemma_started_only_when_due(t0: Task, w: Seq<char>, now: i64, t1: Task)
    requires
        Task::start_outcome(t0, w, now, t1, Ok(true)),
    ensures
        t0.status is Pending,
        now >= t0.status.execution_time(),
        t1.status is Running,
{
}

} // verus!
