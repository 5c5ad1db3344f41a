# relay_core

The core of a local traffic proxy: it captures HTTP, WebSocket and datagram traffic, lets
interceptors look at it and change it, records it, and serves a control API over what it recorded.

`src/` is the library. Every function in it is verified with Verus against its contract.

- `proxy/` – exchanges, WebSocket handshakes and messages, tunnels, outbound connections, bodies and
  their encodings, throttling, the circuit breaker.
- `capture/` – where connections and datagrams come from and where they were going.
- `control/` – how a client finds, starts and drives the daemon.
- `api/` – what the routes of the control API decide and answer.
- `flow`, `headers`, `addr`, `urls`, `text`, `table`, `metrics`, `policy`, `intercept` – the data that
  the others share.

Steps that wait for the outside (a socket, a clock, an interceptor) are events: the library is told
what came of a step and says what to do next. `app/` performs those steps with tokio and hyper.

A function marked `#[verifier::external_body]` calls another crate. Its contract is what that crate
is relied on for.

`tests/` runs the library on concrete values.
