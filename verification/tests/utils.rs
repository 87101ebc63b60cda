use fizzbuzz_task_scheduler::ids::random_id;
use fizzbuzz_task_scheduler::utils::{Args, RunType};
use fizzbuzz_task_scheduler::task::{Status, Task, Type};
use fizzbuzz_task_scheduler::web::{may_delete, query_filter, select_kind};

#[test]
fn run_type_from_any_case() {
    assert!(matches!(RunType::from_str("master"), RunType::Master));
    assert!(matches!(RunType::from_str("MASTER"), RunType::Master));
    assert!(matches!(RunType::from_str("Master"), RunType::Master));
    assert!(matches!(RunType::from_str("slave"), RunType::Slave));
    assert!(matches!(RunType::from_str("masters"), RunType::Slave));
    assert!(matches!(RunType::from_str(""), RunType::Slave));
    assert!(matches!(RunType::from_lowercase("master"), RunType::Master));
    assert!(matches!(RunType::from_lowercase("MASTER"), RunType::Slave));
}

#[test]
fn args_from_command_line() {
    let args = vec![String::from("prog"), String::from("127.0.0.1:8080"), String::from("Master")];
    let a = Args::handle(&args);
    assert_eq!(a.address, "127.0.0.1:8080");
    assert!(matches!(a.runType, RunType::Master));
    let args = vec![String::from("prog"), String::from("127.0.0.1:8081"), String::from("slave")];
    assert!(matches!(Args::handle(&args).runType, RunType::Slave));
}

#[test]
fn random_ids() {
    let a = random_id();
    let b = random_id();
    assert_eq!(a.len(), 16);
    assert!(a.chars().all(|c| c.is_ascii_alphanumeric()));
    assert_ne!(a, b);
}

#[test]
fn empty_query_is_no_filter() {
    assert_eq!(query_filter(String::new()), None);
    assert_eq!(query_filter(String::from("Completed")), Some(String::from("Completed")));
}

#[test]
fn listing_filtered_by_kind() {
    let tasks = vec![
        Task::create(String::from("a"), 1, String::from("Fizz")).unwrap(),
        Task::create(String::from("b"), 2, String::from("Buzz")).unwrap(),
        Task::create(String::from("c"), 3, String::from("Fizz")).unwrap(),
    ];
    let fizz = select_kind(tasks.clone(), Some("Fizz"));
    assert_eq!(fizz.len(), 2);
    assert_eq!(fizz[0].id, "a");
    assert_eq!(fizz[1].id, "c");
    assert!(fizz.iter().all(|t| matches!(t.kind, Type::Fizz)));
    assert_eq!(select_kind(tasks.clone(), Some("FizzBuzz")).len(), 0);
    assert_eq!(select_kind(tasks.clone(), Some("fizz")).len(), 0);
    let all = select_kind(tasks, None);
    assert_eq!(all.len(), 3);
    assert_eq!(all[1].id, "b");
}

#[test]
fn running_tasks_may_not_be_deleted() {
    assert!(may_delete(&Status::Pending(5)));
    assert!(may_delete(&Status::Completed));
    assert!(!may_delete(&Status::Running(String::from("w"))));
}
