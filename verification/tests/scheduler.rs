use fizzbuzz_task_scheduler::scheduler::{plan_due_jobs, plan_jobs};
use fizzbuzz_task_scheduler::task::{Status, Task};
use fizzbuzz_task_scheduler::worker::Worker;

fn task(id: &str, status: Status) -> Task {
    let mut t = Task::create(String::from(id), 0, String::from("Fizz")).unwrap();
    t.updateStatus(status);
    t
}

fn worker(id: &str, status: &str) -> Worker {
    Worker { id: String::from(id), status: String::from(status) }
}

#[test]
fn due_tasks_go_to_idle_workers_in_order() {
    let tasks = vec![
        task("t1", Status::Pending(100)),
        task("t2", Status::Pending(300)),
        task("t3", Status::Pending(50)),
        task("t4", Status::Pending(200)),
    ];
    let workers = vec![worker("w1", "Working"), worker("w2", "Idle"), worker("w3", "Idle")];
    let jobs = plan_jobs(&tasks, &workers, 200, &mut Vec::new());
    assert_eq!(jobs.len(), 2);
    assert_eq!(jobs[0].worker_id, "w2");
    assert_eq!(jobs[0].topic, "worker/jobs/w2");
    assert_eq!(jobs[0].task.id, "t1");
    assert!(matches!(jobs[0].task.status, Status::Pending(100)));
    assert_eq!(jobs[0].update.id, "t1");
    assert_eq!(jobs[0].update.status.as_string(), "Running");
    assert_eq!(jobs[0].update.status.get_worker(), "w2");
    assert_eq!(jobs[1].worker_id, "w3");
    assert_eq!(jobs[1].task.id, "t3");
    assert_eq!(jobs[1].update.status.get_worker(), "w3");
}

#[test]
fn more_idle_workers_than_due_tasks() {
    let tasks = vec![task("t1", Status::Pending(10)), task("t2", Status::Pending(11))];
    let workers = vec![worker("a", "Idle"), worker("b", "Idle"), worker("c", "Idle")];
    let jobs = plan_jobs(&tasks, &workers, 10, &mut Vec::new());
    assert_eq!(jobs.len(), 1);
    assert_eq!(jobs[0].task.id, "t1");
    assert_eq!(jobs[0].worker_id, "a");
}

#[test]
fn nothing_due_or_nobody_idle() {
    let tasks = vec![task("t1", Status::Pending(10))];
    assert!(plan_jobs(&tasks, &vec![worker("a", "Idle")], 9, &mut Vec::new()).is_empty());
    assert!(plan_jobs(&tasks, &vec![worker("a", "Working")], 10, &mut Vec::new()).is_empty());
    assert!(plan_jobs(&vec![], &vec![worker("a", "Idle")], 10, &mut Vec::new()).is_empty());
    assert!(plan_jobs(&tasks, &vec![], 10, &mut Vec::new()).is_empty());
}

#[test]
fn tasks_that_are_not_pending_count_as_time_zero() {
    let tasks = vec![task("t1", Status::Completed)];
    let jobs = plan_jobs(&tasks, &vec![worker("a", "Idle")], 0, &mut Vec::new());
    assert_eq!(jobs.len(), 1);
}

#[test]
fn plan_with_the_clock() {
    let tasks = vec![task("old", Status::Pending(0)), task("future", Status::Pending(u64::MAX))];
    let workers = vec![worker("a", "Idle"), worker("b", "Idle")];
    let mut handed = Vec::new();
    let jobs = plan_due_jobs(&tasks, &workers, &mut handed);
    assert_eq!(handed, vec![String::from("old")]);
    assert_eq!(jobs.len(), 1);
    assert_eq!(jobs[0].task.id, "old");
    assert_eq!(jobs[0].worker_id, "a");
}

#[test]
fn a_task_is_handed_out_only_once() {
    let tasks = vec![task("t1", Status::Pending(10)), task("t2", Status::Pending(10))];
    let workers = vec![worker("a", "Idle")];
    let mut handed = Vec::new();
    let first = plan_jobs(&tasks, &workers, 10, &mut handed);
    assert_eq!(first.len(), 1);
    assert_eq!(first[0].task.id, "t1");
    assert_eq!(handed, vec![String::from("t1")]);
    // The store has not applied the status update yet: same tasks again.
    let second = plan_jobs(&tasks, &workers, 11, &mut handed);
    assert_eq!(second.len(), 1);
    assert_eq!(second[0].task.id, "t2");
    assert_eq!(handed, vec![String::from("t1"), String::from("t2")]);
    let third = plan_jobs(&tasks, &workers, 12, &mut handed);
    assert!(third.is_empty());
    assert_eq!(handed.len(), 2);
}
