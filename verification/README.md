# knot

The core of a file-first agent orchestration service, verified with Verus.

Looms group knots; a knot runs an agent whenever a strand (an input file) in
its directory is created, changed or deleted, and appends what the agent wrote
to its tie-off file. The library holds the rules of that service:

- `entities`, `events`, `errors`, `rig_state`: the data, each with its model
- `ports`: what the service needs from the outside, each port with a record of
  the calls made on it
- `outside`: the same for single functions: directories, strand files, child
  processes, the clock
- `trace`: one order over the calls on several ports
- `store`, `activity`, `in_memory_event_queue`: what is kept in memory
- `debounce`: rapid events for one file become one
- `session_resume`: an agent run with its retries and its time budget
- `subprocess`: what is started for an invocation, and what its end means
- `service_log`, `tie_off_history`, `paths`, `time`, `text`, `clock`: texts
- `usecases`: discovering, registering and changing looms and knots, processing
  strands, knot status and the state snapshot

A use case owns its ports. Its contract gives, as a function of what the ports
answered, the calls it made on each port, the order of the calls over its ports,
the store it left and its result. General properties are stated as public proof functions at the end of
each module.

`tests/` runs the library with mock ports. `app/` holds what runs around it:
child processes, files, standard error, JSON and the event loop.
