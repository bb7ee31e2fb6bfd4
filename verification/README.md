# kite_protocol

The protocol between the kite host (server side) and its agents (campus
side): UDP frames with a fixed header, sequence numbers that pair responses
with requests, compressed payloads, heartbeats, and the host's list of the
agents it has heard of.

- `src/` is the library, verified with Verus:
  - `codec` — integers on the wire and the `bytes` calls that put and get them;
  - `compress` — zstd block compression of payloads;
  - `protocol` — the frame, its sequence counter, writing and reading, and
    what reading gives back of a write;
  - `services` — the bodies (discovery, heartbeat ping and pong);
  - `node`, `host` — the agents a host knows, how it picks one, and which
    waiting request a response answers;
  - `agent` — the agent's configuration, what it makes of an incoming
    datagram, and its heartbeat.
- `app/` is the runtime around it: tokio sockets, tasks and channels, serde
  and bincode for bodies, and the process-wide sequence counter.
- `tests/` exercises the library on concrete values.
