# ports_agent

The logic of the Ports node agent and of its `portsctl` command, verified
with Verus.

- `src/` is the library. Every function states its result in its contract
  and is proved against it; the proof functions named `law_*` state the
  properties that hold across calls (the firewall stays inside its own
  table, an apply runs exactly what its plan lists, every response carries
  its request's id, a recorded rule reads back, a stored key loads back).
  The library never touches the system: it computes from what its callers
  read, and tells them what to run or write.
- `app/` is the program around it: the agent daemon with its reverse
  WebSocket and standard-input transports, the `portsctl` command line, the
  serde forms of the library's types, and the reads, writes and command runs.
  Run as `portsctl` the binary is the command; otherwise it is the agent.
- `tests/` runs the library on concrete values.
