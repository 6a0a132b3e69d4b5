# System monitor

Agents report the load of their cores and the memory in use over gRPC. A
collector remembers the latest report of each host and its mean loads over the
last while, a worker stores them in a database once a minute, and a dashboard in
the terminal shows both.

- `src/` is the library, verified with Verus: the collector, the histories and
  their bounds, the worker's decisions, what the dashboard shows and how it
  answers to keys and clicks, and what the agent reports and prints. It carries
  readings and means as values of any type (`F` and `G`), since it computes with
  none of them; points in time are integers.
- `app/` is ordinary Rust around it: sockets, the database, the clock, the
  terminal, and the floating point. `main` starts the dashboard; with the
  argument `agent`, `local` or `echo` it starts one of the other programs.
- `tests/` runs the library on concrete values.

The one thing in `src/` that is believed and not proved is the contract of
`layout::split_rows`, which calls `ratatui`.
