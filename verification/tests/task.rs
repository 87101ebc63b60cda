use fizzbuzz_task_scheduler::task::{Status, Task, Type};

#[test]
fn retrieve_known_and_unknown_kinds() {
    assert!(matches!(Type::retrieve("Fizz"), Some(Type::Fizz)));
    assert!(matches!(Type::retrieve("Buzz"), Some(Type::Buzz)));
    assert!(matches!(Type::retrieve("FizzBuzz"), Some(Type::FizzBuzz)));
    assert!(Type::retrieve("fizz").is_none());
    assert!(Type::retrieve("").is_none());
    assert!(Type::retrieve("Fizz ").is_none());
}

#[test]
fn kind_names_and_durations() {
    assert_eq!(Type::Fizz.as_string(), "Fizz");
    assert_eq!(Type::Buzz.as_string(), "Buzz");
    assert_eq!(Type::FizzBuzz.as_string(), "FizzBuzz");
    assert_eq!(Type::Fizz.duration(), 3);
    assert_eq!(Type::Buzz.duration(), 5);
    assert_eq!(Type::FizzBuzz.duration(), 15);
}

#[test]
fn kind_name_reads_back() {
    for k in [Type::Fizz, Type::Buzz, Type::FizzBuzz] {
        let back = Type::retrieve(&k.as_string()).unwrap();
        assert_eq!(back.as_string(), k.as_string());
    }
}

#[test]
fn announcement_lines() {
    assert_eq!(Type::Fizz.announcement_line("abc"), "Fizz abc");
    assert_eq!(Type::Buzz.announcement_line("abc"), "Buzz abc");
    assert_eq!(Type::FizzBuzz.announcement_line("abc"), "Fizz Buzz abc");
}

#[test]
fn status_names_times_and_workers() {
    let p = Status::Pending(1669369358);
    let r = Status::Running(String::from("w1"));
    let c = Status::Completed;
    assert_eq!(p.as_string(), "Pending");
    assert_eq!(r.as_string(), "Running");
    assert_eq!(c.as_string(), "Completed");
    assert_eq!(p.get_execution_time(), 1669369358);
    assert_eq!(r.get_execution_time(), 0);
    assert_eq!(c.get_execution_time(), 0);
    assert_eq!(p.get_worker(), "");
    assert_eq!(r.get_worker(), "w1");
    assert_eq!(c.get_worker(), "");
}

#[test]
fn new_task_is_pending_with_random_id() {
    let t = Task::new(1003, String::from("FizzBuzz")).unwrap();
    assert_eq!(t.id.chars().count(), 16);
    assert!(t.id.chars().all(|c| c.is_ascii_alphanumeric()));
    assert!(matches!(t.kind, Type::FizzBuzz));
    assert!(matches!(t.status, Status::Pending(1003)));
    let u = Task::new(1003, String::from("FizzBuzz")).unwrap();
    assert_ne!(t.id, u.id);
}

#[test]
fn new_task_with_unknown_kind_is_refused() {
    let r = Task::new(1003, String::from("Bazz"));
    assert_eq!(r.unwrap_err(), "Error while creating the new task, type was incorrect.");
}

#[test]
fn create_keeps_the_given_id() {
    let t = Task::create(String::from("T1QfaGU8DBQCfEYR"), 7, String::from("Buzz")).unwrap();
    assert_eq!(t.id, "T1QfaGU8DBQCfEYR");
    assert!(matches!(t.kind, Type::Buzz));
    assert!(matches!(t.status, Status::Pending(7)));
    assert!(Task::create(String::from("x"), 7, String::from("buzz")).is_err());
}

#[test]
fn update_status_replaces_only_the_status() {
    let mut t = Task::create(String::from("id1"), 10, String::from("Fizz")).unwrap();
    t.updateStatus(Status::Running(String::from("abcdefg")));
    assert_eq!(t.id, "id1");
    assert!(matches!(t.kind, Type::Fizz));
    assert_eq!(t.status.as_string(), "Running");
    assert_eq!(t.status.get_worker(), "abcdefg");
}

#[test]
fn start_waits_until_due() {
    let mut t = Task::create(String::from("id1"), 100, String::from("Fizz")).unwrap();
    assert_eq!(t.start_execution_at("w", 99), Ok(false));
    assert_eq!(t.start_execution_at("w", -1), Ok(false));
    assert!(matches!(t.status, Status::Pending(100)));
    assert_eq!(t.start_execution_at("w", 100), Ok(true));
    assert_eq!(t.status.get_worker(), "w");
    assert_eq!(t.status.as_string(), "Running");
}

#[test]
fn start_refuses_a_task_that_is_not_pending() {
    let mut t = Task::create(String::from("id1"), 0, String::from("Buzz")).unwrap();
    assert_eq!(t.start_execution_at("w", 5), Ok(true));
    let again = t.start_execution_at("v", 6);
    assert_eq!(again, Err("Task is not in pending mode. It cannot be executed..."));
    assert_eq!(t.status.get_worker(), "w");
    t.finish_execution();
    assert!(matches!(t.status, Status::Completed));
    assert!(t.start_execution_at("v", 7).is_err());
    assert!(matches!(t.status, Status::Completed));
}

#[test]
fn start_with_the_clock() {
    let mut past = Task::create(String::from("a"), 0, String::from("Fizz")).unwrap();
    assert_eq!(past.start_execution("w"), Ok(true));
    let mut far = Task::create(String::from("b"), 9_000_000_000_000_000_000, String::from("Fizz")).unwrap();
    assert_eq!(far.start_execution("w"), Ok(false));
    let mut never = Task::create(String::from("c"), u64::MAX, String::from("Fizz")).unwrap();
    assert_eq!(never.start_execution("w"), Ok(false));
    assert!(matches!(never.status, Status::Pending(u64::MAX)));
    assert!(matches!(far.status, Status::Pending(9_000_000_000_000_000_000)));
}

#[test]
fn duplicate_copies_everything() {
    let t = Task::create(String::from("id9"), 3, String::from("FizzBuzz")).unwrap();
    let mut u = t.duplicate();
    assert_eq!(u.id, "id9");
    assert!(matches!(u.status, Status::Pending(3)));
    u.updateStatus(Status::Completed);
    assert!(matches!(t.status, Status::Pending(3)));
}

#[test]
fn far_future_task_is_not_due() {
    let mut t = Task::create(String::from("f"), u64::MAX, String::from("Buzz")).unwrap();
    assert_eq!(t.start_execution_at("w", 0), Ok(false));
    assert_eq!(t.start_execution_at("w", i64::MAX), Ok(false));
    assert!(matches!(t.status, Status::Pending(u64::MAX)));
    let mut u = Task::create(String::from("g"), i64::MAX as u64, String::from("Buzz")).unwrap();
    assert_eq!(u.start_execution_at("w", i64::MAX), Ok(true));
}
