# osprei

A small continuous integration server whose core is verified with Verus.

A job is a git repository and the path, inside it, of a JSON definition that
lists the job's stages. Running a job cleans its workspace, clones the
repository, reads the definition, runs the stages one after the other until
one fails, cleans the workspace again and stores the outcome. Jobs can also
run every day at a given hour and minute.

## Layout

- `src/` — the verified library.
  - `server/execute.rs`: the execution of a job as a state machine, with the
    laws of an execution (cleanup first and last, stages in order until the
    first failure, status and outputs of the execution).
  - `server/memory.rs`: the in-memory store of jobs, executions and schedules,
    with its read-after-write laws and the ordering of recent executions.
  - `server/serve.rs`: requests to run jobs, served one at a time, as a state
    machine.
  - `server/schedule.rs`: the wait before the first run of a daily schedule,
    its daily period and the law that it runs every day.
  - `server/job.rs`, `server/paths.rs`, `server/views.rs`,
    `server/persistance.rs`: stage bookkeeping, paths, API errors and storage
    errors.
  - `execution.rs`: running a repository's tests in containers, as a state
    machine.
  - `gui.rs`, `cli.rs`, `storage.rs`, `data.rs`: what the web interface and the
    command line client show, and the stage definitions they store.
  - `runner.rs`, `paths.rs`: the standalone runner.
  - `model.rs`, `text.rs`, `clock.rs`: the data model, text helpers, and the
    clock and date formatting the library relies on.
- `app/` — the server program: configuration, HTTP routes, the SQLite store,
  processes, containers and timers, driving the library.
- `tests/` — tests of the library.
