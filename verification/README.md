# muxlane-core

The verified core of the Muxlane WSL runtime control plane.

- `src/` is the library, written in Verus. It holds the launch transaction
  state machine, identifier and path validation, the credential custody and
  recovery decisions, durable storage access over SQLite, the control
  protocol's framing and handshake, the terminal gateway's Control Mode
  parsing and stream checks, the formal terminal data plane's routing, the
  workbench rules, session indexing, usage normalisation and the diagnostics
  formats. Each public function states its behaviour in `requires` /
  `ensures`; the laws that relate several functions are public proof
  functions.
- `Storage` keeps, as ghost state, what it hands to SQLite: the changing
  statements with their parameters (the schema migrations that opening the
  store runs among them), every query with its parameters and the rows it
  returned, and how each connection was set up. Every write states the
  statements it appended; every read states the query it asked and that its
  result is those rows, decoded one for one. A read also checks that the rows
  answer what was asked (the asked identifier, project, incident or filters)
  and, where its query orders them, that they come in that order, and refuses
  them otherwise. What the database holds is not modelled, so a read is not
  tied to an earlier write.
- `app/` is the host around it: the `muxlaned` daemon (its socket, threads and
  tmux processes), the terminal gateways' stdio loops, the filesystem and lock
  work of credential custody, and the `muxlane` command line. It makes the
  calls the library decides on.
- `tests/` exercises the library on concrete values.
