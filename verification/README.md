# aria2_rs

A client for the JSON-RPC interface of the aria2 download utility, over a
websocket.

`src/` is the library, verified with Verus:

- `call`: the calls of the interface (`aria2.addUri`, `aria2.tellStatus`,
  `system.multicall`, ...), the exact layout of each call's parameters
  (the secret token first, optional parts only when given), and the
  reading of the replies that need it (`OK`, the results of a multicall).
- `dispatch`: the decisions of a connection: the JSON-RPC request that
  carries a call, the reading of what aria2 sends (reply, notification,
  error), the table of callers waiting under request ids, and the sharing
  out of a batch reply among its callers. Proof functions state that an
  answer reaches exactly the caller registered under its id.
- `json`, `small_vec`, `options`, `status`, `error`: the values these work on.

`app/` holds what Verus does not see: the tokio tasks that own the
websocket, the channels and timers, the serde forms of the status records,
and the conversion between `serde_json::Value` and the library's
`JsonValue`.
