//! The task store: the SQL statements that keep tasks and workers, and the
//! reading of stored rows back into tasks.
use vstd::prelude::*;

use crate::task::{lemma_kind_names_read_back, Status, Task, Type};
use crate::text::{
    decimal, lemma_parse_decimal, parse_u64, parse_u64_spec, push_decimal, signed_decimal,
    i64_to_decimal, str_equal,
};
use crate::worker::Worker;

verus! {

/// Where the store keeps its database.
pub const STORAGE_LOCATION: &'static str = "/tmp/fizzbuzzstorage.db";

/// Creates the task table unless it exists.
pub const CREATE_TASKS_TABLE: &'static str =
    "CREATE TABLE IF NOT EXISTS tasks (id TEXT UNIQUE, kind TEXT, status TEXT, execution_time INTEGER, worker_id TEXT);";

/// Drops the worker table: workers register anew at every start.
pub const DROP_WORKERS_TABLE: &'static str = "DROP TABLE IF EXISTS workers";

/// Creates the worker table unless it exists.
pub const CREATE_WORKERS_TABLE: &'static str =
    "CREATE TABLE IF NOT EXISTS workers (id TEXT UNIQUE, status INTEGER);";

/// Selects every worker.
pub const SELECT_WORKERS: &'static str = "SELECT * FROM workers";

// ========= WORKER STATEMENTS ==========

/// The statement that adds a worker.
pub open spec fn register_worker_sql(w: Worker) -> Seq<char> {
    "INSERT INTO workers VALUES ('"@ + w.id@ + "', '"@ + w.status@ + "')"@
}

/// The statement that sets the status of a worker.
pub open spec fn update_worker_sql(w: Worker) -> Seq<char> {
    "\n            UPDATE workers\n            SET status = '"@ + w.status@
        + "'\n            WHERE id = '"@ + w.id@ + "' \n        "@
}

/// The statement that removes a worker.
pub open spec fn unsubscribe_worker_sql(id: Seq<char>) -> Seq<char> {
    "\n          DELETE FROM workers WHERE id = '"@ + id + "';\n        "@
}

/// The statement that adds worker `worker`.
pub fn register_worker_query(worker: &Worker) -> (q: String)
    ensures
        q@ == register_worker_sql(*worker),
{
    let mut q = String::from_str("INSERT INTO workers VALUES ('");
    q.append(worker.id.as_str());
    q.append("', '");
    q.append(worker.status.as_str());
    q.append("')");
    q
}

/// The statement that stores the status of worker `worker`.
pub fn update_worker_query(worker: &Worker) -> (q: String)
    ensures
        q@ == update_worker_sql(*worker),
{
    let mut q = String::from_str("\n            UPDATE workers\n            SET status = '");
    q.append(worker.status.as_str());
    q.append("'\n            WHERE id = '");
    q.append(worker.id.as_str());
    q.append("' \n        ");
    q
}

/// The statement that removes the worker with id `id`.
pub fn unsubscribe_worker_query(id: &str) -> (q: String)
    ensures
        q@ == unsubscribe_worker_sql(id@),
{
    let mut q = String::from_str("\n          DELETE FROM workers WHERE id = '");
    q.append(id);
    q.append("';\n        ");
    q
}

/// The rows that could be read, in their order; a row that could not be
/// read is `None` and is left out.
pub open spec fn read_rows<T>(rows: Seq<Option<T>>) -> Seq<T>
    decreases rows.len(),
{
    if rows.len() == 0 {
        Seq::empty()
    } else {
        let earlier = read_rows(rows.drop_last());
        match rows.last() {
            Some(x) => earlier.push(x),
            None => earlier,
        }
    }
}

/// The workers of the rows that could be read, in their order.
pub fn workers_from_rows(rows: &Vec<Option<Worker>>) -> (workers: Vec<Worker>)
    ensures
        workers@ == read_rows(rows@),
        workers@.len() == read_count(rows@),
{
    let mut workers: Vec<Worker> = Vec::new();
    let n: usize = rows.len();
    for i in 0..n
        invariant
            n == rows@.len(),
            workers@ == read_rows(rows@.take(i as int)),
    {
        assert(rows@.take(i + 1).drop_last() =~= rows@.take(i as int));
        match &rows[i] {
            Some(w) => workers.push(w.duplicate()),
            None => {},
        }
    }
    assert(rows@.take(n as int) =~= rows@);
    proof {
        lemma_read_rows_keeps_every_row(rows@);
    }
    workers
}

// ========= TASK STATEMENTS ==========

/// The statement that selects the task with id `id`.
pub open spec fn get_task_sql(id: Seq<char>) -> Seq<char> {
    "SELECT * FROM tasks WHERE id = '"@ + id + "'"@
}

/// The statement that selects the tasks, all of them or those of one status.
pub open spec fn get_tasks_sql(status: Option<Seq<char>>) -> Seq<char> {
    match status {
        Some(s) => "SELECT * FROM tasks"@ + " WHERE status = '"@ + s + "'"@,
        None => "SELECT * FROM tasks"@,
    }
}

/// The statement that writes the status of a task.
pub open spec fn update_task_sql(t: Task) -> Seq<char> {
    "\n          UPDATE tasks\n          SET status = '"@ + t.status.name() + "', execution_time = "@
        + decimal(t.status.execution_time() as nat) + ", worker_id = '"@ + t.status.worker()
        + "'\n          WHERE id = '"@ + t.id@ + "'\n        "@
}

/// The statement that removes a task.
pub open spec fn delete_task_sql(id: Seq<char>) -> Seq<char> {
    "\n          DELETE FROM tasks WHERE id = '"@ + id + "';\n        "@
}

/// The statement that adds a task; its worker column stays empty.
pub open spec fn store_task_sql(t: Task) -> Seq<char> {
    "INSERT INTO tasks VALUES ('"@ + t.id@ + "', '"@ + t.kind.name() + "', '"@ + t.status.name()
        + "', "@ + decimal(t.status.execution_time() as nat) + ", NULL);"@
}

/// The statement that selects the task with id `id`.
pub fn get_task_query(id: &str) -> (q: String)
    ensures
        q@ == get_task_sql(id@),
{
    let mut q = String::from_str("SELECT * FROM tasks WHERE id = '");
    q.append(id);
    q.append("'");
    q
}

/// The statement that selects all tasks, or those whose status is named
/// `status`.
pub fn get_tasks_query(status: Option<&str>) -> (q: String)
    ensures
        q@ == get_tasks_sql(
            match status {
                Some(s) => Some(s@),
                None => None,
            },
        ),
{
    let mut q = String::from_str("SELECT * FROM tasks");
    match status {
        Some(s) => {
            q.append(" WHERE status = '");
            q.append(s);
            q.append("'");
        },
        None => {},
    }
    q
}

/// The statement that writes the status of `task` (its name, its execution
/// time and its worker) to the row with the task's id.
pub fn update_task_query(task: &Task) -> (q: String)
    ensures
        q@ == update_task_sql(*task),
{
    let mut q = String::from_str("\n          UPDATE tasks\n          SET status = '");
    q.append(task.status.as_string().as_str());
    q.append("', execution_time = ");
    push_decimal(&mut q, task.status.get_execution_time());
    q.append(", worker_id = '");
    q.append(task.status.get_worker().as_str());
    q.append("'\n          WHERE id = '");
    q.append(task.id.as_str());
    q.append("'\n        ");
    q
}

/// The statement that removes the task with id `id`.
pub fn delete_task_query(id: &str) -> (q: String)
    ensures
        q@ == delete_task_sql(id@),
{
    let mut q = String::from_str("\n          DELETE FROM tasks WHERE id = '");
    q.append(id);
    q.append("';\n        ");
    q
}

/// The statement that adds `task` as a new row.
pub fn store_task_query(task: &Task) -> (q: String)
    ensures
        q@ == store_task_sql(*task),
{
    let mut q = String::from_str("INSERT INTO tasks VALUES ('");
    q.append(task.id.as_str());
    q.append("', '");
    q.append(task.kind.as_string().as_str());
    q.append("', '");
    q.append(task.status.as_string().as_str());
    q.append("', ");
    push_decimal(&mut q, task.status.get_execution_time());
    q.append(", NULL);");
    q
}

// ========= READING TASKS ==========

/// A stored task as it is read: each column as text.
pub struct TaskRow {
    pub id: String,
    pub kind: String,
    pub status: String,
    pub execution_time: String,
    pub worker_id: String,
}

/// The text of an optional column; an empty column reads as empty text.
pub open spec fn column_text(c: Option<String>) -> Seq<char> {
    match c {
        Some(s) => s@,
        None => Seq::empty(),
    }
}

impl TaskRow {
    /// Whether the row can be read as a task: its kind names a kind and,
    /// when it is pending, its execution time is a number.
    pub open spec fn well_formed(&self) -> bool {
        &&& Type::named(self.kind@) is Some
        &&& self.status@ == "Pending"@ ==> parse_u64_spec(self.execution_time@) is Some
    }

    /// The task that a well-formed row holds. A status other than "Pending"
    /// and "Running" reads as completed.
    pub open spec fn task(self) -> Task {
        Task {
            id: self.id,
            kind: Type::named(self.kind@).unwrap(),
            status: if self.status@ == "Pending"@ {
                Status::Pending(parse_u64_spec(self.execution_time@).unwrap())
            } else if self.status@ == "Running"@ {
                Status::Running(self.worker_id)
            } else {
                Status::Completed
            },
        }
    }

    /// The row as the columns of the task table give it: the execution time
    /// written as a decimal number, an empty worker column as empty text.
    pub fn from_columns(
        id: String,
        kind: String,
        status: String,
        execution_time: i64,
        worker_id: Option<String>,
    ) -> (row: TaskRow)
        ensures
            row.id == id,
            row.kind == kind,
            row.status == status,
            row.execution_time@ == signed_decimal(execution_time as int),
            row.worker_id@ == column_text(worker_id),
    {
        let worker_id = match worker_id {
            Some(w) => w,
            None => String::new(),
        };
        TaskRow { id, kind, status, execution_time: i64_to_decimal(execution_time), worker_id }
    }

    /// Whether the row can be read as a task.
    pub fn is_well_formed(&self) -> (b: bool)
        ensures
            b == self.well_formed(),
    {
        Type::retrieve(self.kind.as_str()).is_some() && (!str_equal(self.status.as_str(), "Pending")
            || parse_u64(self.execution_time.as_str()).is_some())
    }

    /// A copy of the row.
    pub fn duplicate(&self) -> (r: TaskRow)
        ensures
            r == *self,
    {
        TaskRow {
            id: self.id.clone(),
            kind: self.kind.clone(),
            status: self.status.clone(),
            execution_time: self.execution_time.clone(),
            worker_id: self.worker_id.clone(),
        }
    }
}

/// The task of a row, or `None` when no row was found.
pub fn extract_task(data: Option<TaskRow>) -> (r: Option<Task>)
    requires
        data matches Some(row) ==> row.well_formed(),
    ensures
        r == match data {
            Some(row) => Some(row.task()),
            None => None,
        },
{
    match data {
        None => None,
        Some(row) => {
            let kind = Type::retrieve(row.kind.as_str());
            let status = if str_equal(row.status.as_str(), "Pending") {
                let time = parse_u64(row.execution_time.as_str());
                Status::Pending(time.unwrap())
            } else if str_equal(row.status.as_str(), "Running") {
                Status::Running(row.worker_id)
            } else {
                Status::Completed
            };
            Some(Task { id: row.id, kind: kind.unwrap(), status })
        },
    }
}

/// The tasks of the rows that could be read, in their order.
pub open spec fn tasks_of_rows(rows: Seq<Option<TaskRow>>) -> Seq<Task>
    decreases rows.len(),
{
    if rows.len() == 0 {
        Seq::empty()
    } else {
        let earlier = tasks_of_rows(rows.drop_last());
        match rows.last() {
            Some(row) => earlier.push(row.task()),
            None => earlier,
        }
    }
}

/// The tasks of the rows that could be read, in their order; a row that
/// could not be read is `None` and is left out.
pub fn tasks_from_rows(rows: &Vec<Option<TaskRow>>) -> (tasks: Vec<Task>)
    requires
        forall|i: int| 0 <= i < rows@.len() ==> (#[trigger] rows@[i] matches Some(row)
            ==> row.well_formed()),
    ensures
        tasks@ == tasks_of_rows(rows@),
        tasks@.len() == read_count(rows@),
{
    let mut tasks: Vec<Task> = Vec::new();
    let n: usize = rows.len();
    for i in 0..n
        invariant
            n == rows@.len(),
            forall|i: int| 0 <= i < rows@.len() ==> (#[trigger] rows@[i] matches Some(row)
                ==> row.well_formed()),
            tasks@ == tasks_of_rows(rows@.take(i as int)),
    {
        assert(rows@.take(i + 1).drop_last() =~= rows@.take(i as int));
        match &rows[i] {
            Some(row) => {
                let t = extract_task(Some(row.duplicate()));
                tasks.push(t.unwrap());
            },
            None => {},
        }
    }
    assert(rows@.take(n as int) =~= rows@);
    proof {
        lemma_tasks_from_every_row(rows@);
    }
    tasks
}

// ========= WHAT A READ GIVES BACK ==========

/// Whether two tasks agree on id, kind and status, strings taken by their
/// characters.
pub open spec fn same_task(a: Task, b: Task) -> bool {
    &&& a.id@ == b.id@
    &&& a.kind == b.kind
    &&& a.status.name() == b.status.name()
    &&& a.status.execution_time() == b.status.execution_time()
    &&& a.status.worker() == b.status.worker()
}

proof fn lemma_names_read_back(t: Task)
    ensures
        Type::named(t.kind.name()) == Some(t.kind),
        t.status.name() == "Pending"@ <==> t.status is Pending,
        t.status.name() == "Running"@ <==> t.status is Running,
{
    lemma_kind_names_read_back(t.kind);
    reveal_strlit("Pending");
    reveal_strlit("Running");
    reveal_strlit("Completed");
    assert("Pending"@[0] != "Running"@[0]);
    assert("Pending"@[0] != "Completed"@[0]);
    assert("Running"@[0] != "Completed"@[0]);
}

/// Reading back the row of a task whose status was written by
/// `update_task_sql` (status name, execution time and worker, the time read
/// back as a decimal number) after its id and kind were stored by
/// `store_task_sql` gives the task back.
pub proof fn lemma_updated_row_reads_back(t: Task, row: TaskRow)
    requires
        row.id@ == t.id@,
        row.kind@ == t.kind.name(),
        row.status@ == t.status.name(),
        row.execution_time@ == signed_decimal(t.status.execution_time() as int),
        row.worker_id@ == t.status.worker(),
    ensures
        row.well_formed(),
        same_task(row.task(), t),
{
    lemma_names_read_back(t);
    lemma_parse_decimal(t.status.execution_time());
}

/// Reading back the row that `store_task_sql` added for a task gives the
/// task back, unless the task was running: the statement leaves the worker
/// column empty, so a running task reads back as running on no worker.
pub proof fn lemma_stored_row_reads_back(t: Task, row: TaskRow)
    requires
        row.id@ == t.id@,
        row.kind@ == t.kind.name(),
        row.status@ == t.status.name(),
        row.execution_time@ == signed_decimal(t.status.execution_time() as int),
        row.worker_id@ == column_text(None),
    ensures
        row.well_formed(),
        !(t.status is Running) ==> same_task(row.task(), t),
        t.status is Running ==> row.task().status.worker() == Seq::<char>::empty(),
{
    lemma_names_read_back(t);
    lemma_parse_decimal(t.status.execution_time());
}

/// How many rows of `rows` could be read.
pub open spec fn read_count<T>(rows: Seq<Option<T>>) -> nat
    decreases rows.len(),
{
    if rows.len() == 0 {
        0
    } else {
        read_count(rows.drop_last()) + if rows.last() is Some {
            1nat
        } else {
            0nat
        }
    }
}

/// Every row that could be read is kept, once, in its place: there are as
/// many rows read as readable rows, and the readable row at index `i` is
/// the one after all readable rows before it.
pub proof fn lemma_read_rows_keeps_every_row<T>(rows: Seq<Option<T>>)
    ensures
        read_rows(rows).len() == read_count(rows),
        forall|i: int|
            0 <= i < rows.len() && (#[trigger] rows[i]) is Some ==> {
                &&& read_count(rows.take(i)) < read_rows(rows).len()
                &&& read_rows(rows)[read_count(rows.take(i)) as int] == rows[i]->Some_0
            },
    decreases rows.len(),
{
    if rows.len() > 0 {
        let t = rows.drop_last();
        lemma_read_rows_keeps_every_row(t);
        assert forall|i: int| 0 <= i < rows.len() && (#[trigger] rows[i]) is Some implies {
            &&& read_count(rows.take(i)) < read_rows(rows).len()
            &&& read_rows(rows)[read_count(rows.take(i)) as int] == rows[i]->Some_0
        } by {
            if i < rows.len() - 1 {
                assert(t.take(i) =~= rows.take(i));
                assert(t[i] == rows[i]);
            } else {
                assert(rows.take(i) =~= t);
            }
        }
    }
}

/// Every row that could be read yields one task, in its place: there are as
/// many tasks as readable rows, and the readable row at index `i` gives the
/// task after those of all readable rows before it. In particular no
/// readable row, whatever its status, is left out of a listing.
pub proof fn lemma_tasks_from_every_row(rows: Seq<Option<TaskRow>>)
    ensures
        tasks_of_rows(rows).len() == read_count(rows),
        forall|i: int|
            0 <= i < rows.len() && (#[trigger] rows[i]) is Some ==> {
                &&& read_count(rows.take(i)) < tasks_of_rows(rows).len()
                &&& tasks_of_rows(rows)[read_count(rows.take(i)) as int] == rows[i]->Some_0.task()
            },
    decreases rows.len(),
{
    if rows.len() > 0 {
        let t = rows.drop_last();
        lemma_tasks_from_every_row(t);
        assert forall|i: int| 0 <= i < rows.len() && (#[trigger] rows[i]) is Some implies {
            &&& read_count(rows.take(i)) < tasks_of_rows(rows).len()
            &&& tasks_of_rows(rows)[read_count(rows.take(i)) as int] == rows[i]->Some_0.task()
        } by {
            if i < rows.len() - 1 {
                assert(t.take(i) =~= rows.take(i));
                assert(t[i] == rows[i]);
            } else {
                assert(rows.take(i) =~= t);
            }
        }
    }
}

} // verus!
