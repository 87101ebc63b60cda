//! Workers and the messages that they send about themselves.
use vstd::prelude::*;

use crate::ids::{is_id, lemma_id_has_no_colon};
use crate::text::{after_last, before_first, decimal, first_piece, last_piece, push_decimal, str_equal};

verus! {

/// A worker as the scheduler knows it: its id and its status, "Idle" or
/// "Working".
pub struct Worker {
    pub id: String,
    pub status: String,
}

/// The topic on which workers announce themselves and their status.
pub const WORKER_INDEX_TOPIC: &'static str = "worker/index";

/// The topic on which task status updates travel to the task store.
pub const TASK_STATUS_TOPIC: &'static str = "tasks/status";

/// The message that worker `id` sends on the worker index topic to report
/// `action`: the id, a colon and the action.
pub open spec fn index_message(id: Seq<char>, action: Seq<char>) -> Seq<char> {
    id + ":"@ + action
}

/// The topic on which the worker with the given id receives its jobs.
pub open spec fn job_topic_of(id: Seq<char>) -> Seq<char> {
    "worker/jobs/"@ + id
}

/// The name of the environment variable under which process `pid` keeps
/// the id of its worker.
pub open spec fn worker_id_variable_of(pid: nat) -> Seq<char> {
    decimal(pid) + "_FB_WORKER_ID"@
}

impl Worker {
    /// A copy of the worker.
    pub fn duplicate(&self) -> (w: Worker)
        ensures
            w == *self,
    {
        Worker { id: self.id.clone(), status: self.status.clone() }
    }
}

fn index_message_for(id: &str, action: &str) -> (m: String)
    ensures
        m@ == index_message(id@, action@),
{
    let mut m = String::from_str(id);
    m.append(":");
    m.append(action);
    m
}

/// The message by which worker `id` joins the network: "{id}:register".
pub fn register_message(id: &str) -> (m: String)
    ensures
        m@ == index_message(id@, "register"@),
{
    index_message_for(id, "register")
}

/// The message by which worker `id` reports that it took a job: "{id}:working".
pub fn working_message(id: &str) -> (m: String)
    ensures
        m@ == index_message(id@, "working"@),
{
    index_message_for(id, "working")
}

/// The message by which worker `id` reports that it is free: "{id}:idle".
pub fn idle_message(id: &str) -> (m: String)
    ensures
        m@ == index_message(id@, "idle"@),
{
    index_message_for(id, "idle")
}

/// The topic on which worker `id` receives its jobs: "worker/jobs/{id}".
pub fn job_topic(id: &str) -> (t: String)
    ensures
        t@ == job_topic_of(id@),
{
    let mut t = String::from_str("worker/jobs/");
    t.append(id);
    t
}

/// The name of the environment variable under which process `pid` keeps
/// the id of its worker: "{pid}_FB_WORKER_ID".
pub fn worker_id_variable(pid: u32) -> (v: String)
    ensures
        v@ == worker_id_variable_of(pid as nat),
{
    let mut v = String::new();
    push_decimal(&mut v, pid as u64);
    v.append("_FB_WORKER_ID");
    v
}

/// What the scheduler does with a message on the worker index topic.
pub enum WorkerCommand {
    /// Add this worker to the store.
    Register(Worker),
    /// Set the status of this worker in the store.
    Update(Worker),
    /// Remove the worker with this id from the store.
    Delete(String),
    /// Nothing.
    Ignore,
}

/// The worker id that a message on the worker index topic names: the text
/// before its first colon.
pub open spec fn message_worker(m: Seq<char>) -> Seq<char> {
    before_first(m, ':')
}

/// The action that a message on the worker index topic names: the text
/// after its last colon.
pub open spec fn message_action(m: Seq<char>) -> Seq<char> {
    after_last(m, ':')
}

/// Whether `c` is the command for message `m`.
pub open spec fn command_for(m: Seq<char>, c: WorkerCommand) -> bool {
    let id = message_worker(m);
    let action = message_action(m);
    if action == "register"@ {
        c matches WorkerCommand::Register(w) && w.id@ == id && w.status@ == "Idle"@
    } else if action == "working"@ {
        c matches WorkerCommand::Update(w) && w.id@ == id && w.status@ == "Working"@
    } else if action == "idle"@ {
        c matches WorkerCommand::Update(w) && w.id@ == id && w.status@ == "Idle"@
    } else if action == "delete"@ {
        c matches WorkerCommand::Delete(i) && i@ == id
    } else {
        c is Ignore
    }
}

/// The four actions of worker messages are four different words, so the
/// action of a message selects at most one command.
pub proof fn lemma_actions_differ()
    ensures
        "register"@ != "working"@,
        "register"@ != "idle"@,
        "register"@ != "delete"@,
        "working"@ != "idle"@,
        "working"@ != "delete"@,
        "idle"@ != "delete"@,
{
    reveal_strlit("register");
    reveal_strlit("working");
    reveal_strlit("idle");
    reveal_strlit("delete");
    assert("register"@[0] != "working"@[0]);
    assert("register"@[0] != "idle"@[0]);
    assert("register"@[0] != "delete"@[0]);
    assert("working"@[0] != "idle"@[0]);
    assert("working"@[0] != "delete"@[0]);
    assert("idle"@[0] != "delete"@[0]);
}

/// Reads a message of the worker index topic: a worker id, a colon and an
/// action, one of "register", "working", "idle" and "delete".
pub fn worker_command(m: &str) -> (c: WorkerCommand)
    ensures
        command_for(m@, c),
{
    let id = first_piece(m, ':');
    let action = last_piece(m, ':');
    if str_equal(action.as_str(), "register") {
        WorkerCommand::Register(Worker { id, status: String::from_str("Idle") })
    } else if str_equal(action.as_str(), "working") {
        WorkerCommand::Update(Worker { id, status: String::from_str("Working") })
    } else if str_equal(action.as_str(), "idle") {
        WorkerCommand::Update(Worker { id, status: String::from_str("Idle") })
    } else if str_equal(action.as_str(), "delete") {
        WorkerCommand::Delete(id)
    } else {
        WorkerCommand::Ignore
    }
}

proof fn lemma_index_message_pieces(id: Seq<char>, action: Seq<char>)
    requires
        !id.contains(':'),
        !action.contains(':'),
    ensures
        message_worker(index_message(id, action)) == id,
        message_action(index_message(id, action)) == action,
{
    let m = index_message(id, action);
    reveal_strlit(":");
    assert forall|j: int| 0 <= j < id.len() implies m[j] != ':' by {
        assert(m[j] == id[j]);
        if id[j] == ':' {
            assert(id.contains(':'));
        }
    }
    crate::text::lemma_before_first(m, ':', id.len() as int);
    assert(m.take(id.len() as int) =~= id);
    assert forall|j: int| id.len() + 1 <= j < m.len() implies m[j] != ':' by {
        assert(m[j] == action[j - id.len() - 1]);
        if action[j - id.len() - 1] == ':' {
            assert(action.contains(':'));
        }
    }
    crate::text::lemma_after_last(m, ':', id.len() as int + 1);
    assert(m.subrange(id.len() as int + 1, m.len() as int) =~= action);
}

/// The scheduler reads each message that a worker sends about itself as
/// that worker's intended command, as long as the worker's id holds no
/// colon: registering adds it as idle, "working" and "idle" set its status.
pub proof fn lemma_worker_messages_read_back(id: Seq<char>)
    requires
        !id.contains(':'),
    ensures
        forall|c: WorkerCommand|
            command_for(index_message(id, "register"@), c) <==> (c matches WorkerCommand::Register(w)
                && w.id@ == id && w.status@ == "Idle"@),
        forall|c: WorkerCommand|
            command_for(index_message(id, "working"@), c) <==> (c matches WorkerCommand::Update(w)
                && w.id@ == id && w.status@ == "Working"@),
        forall|c: WorkerCommand|
            command_for(index_message(id, "idle"@), c) <==> (c matches WorkerCommand::Update(w)
                && w.id@ == id && w.status@ == "Idle"@),
{
    reveal_strlit("register");
    reveal_strlit("working");
    reveal_strlit("idle");
    reveal_strlit("delete");
    let r = "register"@;
    let wk = "working"@;
    let i = "idle"@;
    assert(!r.contains(':')) by {
        if r.contains(':') {
            let k = choose|k: int| 0 <= k < r.len() && r[k] == ':';
        }
    }
    assert(!wk.contains(':')) by {
        if wk.contains(':') {
            let k = choose|k: int| 0 <= k < wk.len() && wk[k] == ':';
        }
    }
    assert(!i.contains(':')) by {
        if i.contains(':') {
            let k = choose|k: int| 0 <= k < i.len() && i[k] == ':';
        }
    }
    lemma_index_message_pieces(id, r);
    lemma_index_message_pieces(id, wk);
    lemma_index_message_pieces(id, i);
    lemma_actions_differ();
}

/// The scheduler reads each message that a worker with a generated id sends
/// about itself as that worker's intended command.
pub proof fn lemma_generated_worker_messages_read_back(id: Seq<char>)
    requires
        is_id(id),
    ensures
        forall|c: WorkerCommand|
            command_for(index_message(id, "register"@), c) <==> (c matches WorkerCommand::Register(w)
                && w.id@ == id && w.status@ == "Idle"@),
        forall|c: WorkerCommand|
            command_for(index_message(id, "working"@), c) <==> (c matches WorkerCommand::Update(w)
                && w.id@ == id && w.status@ == "Working"@),
        forall|c: WorkerCommand|
            command_for(index_message(id, "idle"@), c) <==> (c matches WorkerCommand::Update(w)
                && w.id@ == id && w.status@ == "Idle"@),
{
    lemma_id_has_no_colon(id);
    lemma_worker_messages_read_back(id);
}

} // verus!
