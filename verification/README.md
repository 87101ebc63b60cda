# fizzbuzz-task-scheduler

A small distributed task scheduler. Tasks of three kinds (Fizz, Buzz,
FizzBuzz) are created through an HTTP API with an execution time, kept in a
SQLite store, handed out to idle workers once they are due, and marked
completed when a worker has done the work. Nodes run as `master` (API,
worker, store and scheduler) or `slave` (API and worker) and talk over zenoh.

    fizzbuzz-task-scheduler {network_address} {master|slave}

Layout:

- `src/` is the verified library: the task model and its life cycle
  (`task`), the scheduler's plan (`scheduler`), the SQL text and the reading
  of stored rows (`store`), worker messages (`worker`), decimal numbers and
  string splitting (`text`), identifiers (`ids`), the command line (`utils`)
  and the task listing's filters by status and kind (`web`).
- `app/` is the program around it: the HTTP server, the SQLite connection,
  the zenoh messaging, JSON and the threads.
- `tests/` exercises the library on concrete values.
