# susm

susm runs background programs for a user of Windows: services that are kept running, and jobs that
run once. Each user has a controller, each execution a supervisor of its own, and one host of the
machine starts the controllers of the users who are logged on. A command line talks to them.

`src/` is the library. It holds the rules of all of these, each with its contract, proved by Verus:

- `ids`, `time`, `restart`, `execution`, `controller`, `supervisor_binding`, `transition`: what
  services, jobs, executions and supervisors are and how they change.
- `config`: how definitions are read, checked and identified.
- `runner`, `preflight`, `process`, `runtime_journal`, `controller_link`: the supervisor.
- `log_journal`, `log_segments`, `diagnostics`, `json_object`: what is written down and how long it
  is kept.
- `manager`, `snapshot`, `storage`, `control`, `startup`: the controller.
- `host`, `session`, `pipe`: the host, and how the parts reach each other.
- `bundle`, `installer`, `versions`, `packaging`: how versions are packed, installed and selected.
- `cli`: what the command line asks for and shows.
- `bytes`, `codes`, `messages`, `num`, `numerals`, `ordered`, `paths`, `text`, `utf16`: what the
  others are built on.

Proof functions named `law_...` state what holds of several functions together. Functions marked
`external_body` call other crates and the standard library; their contracts are taken as given.

`app/` is the program around the library: files, pipes, processes, the database and the services of
Windows. It runs under the names `susm`, `susmd`, `susm-supervisor`, `susm-host` and `susm-package`.

`tests/` runs the library.
