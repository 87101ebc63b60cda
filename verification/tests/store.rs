use fizzbuzz_task_scheduler::store::{
    delete_task_query, extract_task, get_task_query, get_tasks_query, register_worker_query,
    store_task_query, tasks_from_rows, unsubscribe_worker_query, update_task_query,
    update_worker_query, workers_from_rows, TaskRow, CREATE_TASKS_TABLE, CREATE_WORKERS_TABLE,
    DROP_WORKERS_TABLE, SELECT_WORKERS, STORAGE_LOCATION,
};
use fizzbuzz_task_scheduler::task::{Status, Task, Type};
use fizzbuzz_task_scheduler::worker::Worker;

fn row(id: &str, kind: &str, status: &str, time: i64, worker: Option<&str>) -> TaskRow {
    TaskRow::from_columns(
        String::from(id),
        String::from(kind),
        String::from(status),
        time,
        worker.map(String::from),
    )
}

#[test]
fn worker_statements() {
    let w = Worker { id: String::from("1234"), status: String::from("Idle") };
    assert_eq!(register_worker_query(&w), "INSERT INTO workers VALUES ('1234', 'Idle')");
    assert_eq!(
        update_worker_query(&w),
        "\n            UPDATE workers\n            SET status = 'Idle'\n            WHERE id = '1234' \n        "
    );
    assert_eq!(unsubscribe_worker_query("1234"), "\n          DELETE FROM workers WHERE id = '1234';\n        ");
    assert_eq!(SELECT_WORKERS, "SELECT * FROM workers");
}

#[test]
fn task_statements() {
    let mut t = Task::create(String::from("abc"), 1669369358, String::from("FizzBuzz")).unwrap();
    assert_eq!(
        store_task_query(&t),
        "INSERT INTO tasks VALUES ('abc', 'FizzBuzz', 'Pending', 1669369358, NULL);"
    );
    assert_eq!(
        update_task_query(&t),
        "\n          UPDATE tasks\n          SET status = 'Pending', execution_time = 1669369358, worker_id = ''\n          WHERE id = 'abc'\n        "
    );
    t.updateStatus(Status::Running(String::from("abcdefg")));
    assert_eq!(
        update_task_query(&t),
        "\n          UPDATE tasks\n          SET status = 'Running', execution_time = 0, worker_id = 'abcdefg'\n          WHERE id = 'abc'\n        "
    );
    assert_eq!(get_task_query("abc"), "SELECT * FROM tasks WHERE id = 'abc'");
    assert_eq!(get_tasks_query(None), "SELECT * FROM tasks");
    assert_eq!(get_tasks_query(Some("Pending")), "SELECT * FROM tasks WHERE status = 'Pending'");
    assert_eq!(delete_task_query("abc"), "\n          DELETE FROM tasks WHERE id = 'abc';\n        ");
}

#[test]
fn schema_statements() {
    assert_eq!(STORAGE_LOCATION, "/tmp/fizzbuzzstorage.db");
    assert!(CREATE_TASKS_TABLE.starts_with("CREATE TABLE IF NOT EXISTS tasks (id TEXT UNIQUE"));
    assert_eq!(DROP_WORKERS_TABLE, "DROP TABLE IF EXISTS workers");
    assert_eq!(CREATE_WORKERS_TABLE, "CREATE TABLE IF NOT EXISTS workers (id TEXT UNIQUE, status INTEGER);");
}

#[test]
fn rows_from_columns() {
    let r = row("a", "Fizz", "Pending", -12, None);
    assert_eq!(r.execution_time, "-12");
    assert_eq!(r.worker_id, "");
    assert!(!r.is_well_formed());
    let r = row("a", "Fizz", "Running", -12, Some("w"));
    assert_eq!(r.worker_id, "w");
    assert!(r.is_well_formed());
    assert!(!row("a", "Fuzz", "Completed", 0, None).is_well_formed());
    assert!(row("a", "Buzz", "Pending", 77, None).is_well_formed());
}

#[test]
fn extract_each_status() {
    assert!(extract_task(None).is_none());
    let t = extract_task(Some(row("a", "Fizz", "Pending", 1003, None))).unwrap();
    assert_eq!(t.id, "a");
    assert!(matches!(t.kind, Type::Fizz));
    assert!(matches!(t.status, Status::Pending(1003)));
    let t = extract_task(Some(row("b", "Buzz", "Running", 0, Some("w9")))).unwrap();
    assert_eq!(t.status.get_worker(), "w9");
    let t = extract_task(Some(row("c", "FizzBuzz", "Completed", 0, None))).unwrap();
    assert!(matches!(t.status, Status::Completed));
    let t = extract_task(Some(row("d", "FizzBuzz", "Whatever", 0, None))).unwrap();
    assert!(matches!(t.status, Status::Completed));
}

#[test]
fn rows_that_could_not_be_read_are_left_out() {
    let rows = vec![
        Some(row("a", "Fizz", "Pending", 5, None)),
        None,
        Some(row("b", "Buzz", "Completed", 0, None)),
    ];
    let tasks = tasks_from_rows(&rows);
    assert_eq!(tasks.len(), 2);
    assert_eq!(tasks[0].id, "a");
    assert_eq!(tasks[1].id, "b");
    let workers = workers_from_rows(&vec![
        None,
        Some(Worker { id: String::from("1234"), status: String::from("Idle") }),
    ]);
    assert_eq!(workers.len(), 1);
    assert_eq!(workers[0].id, "1234");
}

#[test]
fn updated_task_reads_back() {
    let mut task = Task::create(String::from("id"), 10000, String::from("FizzBuzz")).unwrap();
    task.updateStatus(Status::Running(String::from("abcdefg")));
    let back = extract_task(Some(row(
        &task.id,
        &task.kind.as_string(),
        &task.status.as_string(),
        task.status.get_execution_time() as i64,
        Some(&task.status.get_worker()),
    )))
    .unwrap();
    assert_eq!(back.status.as_string(), "Running");
    assert_eq!(back.status.get_worker(), "abcdefg");
    task.updateStatus(Status::Completed);
    let back = extract_task(Some(row(&task.id, "FizzBuzz", &task.status.as_string(), 0, Some("")))).unwrap();
    assert_eq!(back.status.as_string(), "Completed");
}

#[test]
fn stored_task_reads_back() {
    let task = Task::create(String::from("id2"), 1669369358, String::from("Fizz")).unwrap();
    let back = extract_task(Some(row(
        &task.id,
        &task.kind.as_string(),
        &task.status.as_string(),
        task.status.get_execution_time() as i64,
        None,
    )))
    .unwrap();
    assert_eq!(back.id, task.id);
    assert!(matches!(back.status, Status::Pending(1669369358)));
}
