# mcpox-jsonrpc

JSON-RPC 2.0 for peers that call each other, with the Model Context Protocol in mind. What a
client or a server does is decided in a library that is verified with Verus; what waits, sends and
receives is ordinary Rust around it.

## Layout

- `src/`: the verified library.
  - `json`, `text`, `assoc_map`: JSON values, decimal numbers, a small map.
  - `types`, `wire`: the messages, and how they are read from JSON and written as JSON.
  - `error`: errors, and what the remote peer is told of them.
  - `inbound`, `operation`: sorting and processing of what the remote peer sends.
  - `handler`, `router`: arguments of handlers, finding a handler, the response to an invocation.
  - `connection`, `shutdown`: the state of a connection, and the step that follows each event.
  - `connection_handle`: calls, notifications and batches, and what comes of them.
  - `connection_laws`: what holds of a connection over several events.
  - `typemap`, `transport`: what a transport tells of itself.
  - `service`, `client`, `server`, `mcp`: configuration and builders, errors of the MCP client.
- `app/`: tokio event loop, transports, handlers that are asynchronous functions, serde.
- `tests/`: tests of the library.

## How the parts meet

The event loop in `app/` waits for an event, hands it to `ServiceConnection::handle_event`, and
performs the `Step` that comes back. Answers and confirmations travel over channels that the
library does not look into; it only says which channel gets what.

JSON text is turned into `JsonValue` trees before it reaches the library. Members keep their order
and repeated names stay repeated, because reading a message depends on both.
