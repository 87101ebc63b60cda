use fizzbuzz_task_scheduler::worker::{
    idle_message, job_topic, register_message, worker_command, worker_id_variable, working_message,
    WorkerCommand, TASK_STATUS_TOPIC, WORKER_INDEX_TOPIC,
};

#[test]
fn messages_about_a_worker() {
    assert_eq!(register_message("at4M2eqcJEWzpl9I"), "at4M2eqcJEWzpl9I:register");
    assert_eq!(working_message("w"), "w:working");
    assert_eq!(idle_message("w"), "w:idle");
    assert_eq!(job_topic("w7"), "worker/jobs/w7");
    assert_eq!(worker_id_variable(4321), "4321_FB_WORKER_ID");
    assert_eq!(WORKER_INDEX_TOPIC, "worker/index");
    assert_eq!(TASK_STATUS_TOPIC, "tasks/status");
}

#[test]
fn commands_from_messages() {
    match worker_command("w1:register") {
        WorkerCommand::Register(w) => {
            assert_eq!(w.id, "w1");
            assert_eq!(w.status, "Idle");
        },
        _ => panic!("expected a registration"),
    }
    match worker_command("w1:working") {
        WorkerCommand::Update(w) => {
            assert_eq!(w.id, "w1");
            assert_eq!(w.status, "Working");
        },
        _ => panic!("expected an update"),
    }
    match worker_command("w1:idle") {
        WorkerCommand::Update(w) => {
            assert_eq!(w.id, "w1");
            assert_eq!(w.status, "Idle");
        },
        _ => panic!("expected an update"),
    }
    match worker_command("w1:delete") {
        WorkerCommand::Delete(id) => assert_eq!(id, "w1"),
        _ => panic!("expected a deletion"),
    }
    assert!(matches!(worker_command("w1:sleep"), WorkerCommand::Ignore));
    assert!(matches!(worker_command(""), WorkerCommand::Ignore));
}

#[test]
fn first_and_last_piece_of_a_message() {
    match worker_command("a:b:idle") {
        WorkerCommand::Update(w) => assert_eq!(w.id, "a"),
        _ => panic!("expected an update"),
    }
    match worker_command("register") {
        WorkerCommand::Register(w) => assert_eq!(w.id, "register"),
        _ => panic!("expected a registration"),
    }
}

#[test]
fn worker_messages_read_back() {
    let id = "at4M2eqcJEWzpl9I";
    match worker_command(&register_message(id)) {
        WorkerCommand::Register(w) => assert_eq!(w.id, id),
        _ => panic!("expected a registration"),
    }
    match worker_command(&working_message(id)) {
        WorkerCommand::Update(w) => assert_eq!(w.status, "Working"),
        _ => panic!("expected an update"),
    }
    match worker_command(&idle_message(id)) {
        WorkerCommand::Update(w) => assert_eq!(w.status, "Idle"),
        _ => panic!("expected an update"),
    }
}
