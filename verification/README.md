# tcp_ws_bridge

A bridge between TCP clients, which exchange JSON in length-prefixed frames, and one
WebSocket client, which exchanges JSON text messages. What the bridge decides is a library
that Verus verifies; sockets, tasks and the log stand around it.

- `src/frame.rs`: frames on a TCP connection, on the server and in the terminal client.
- `src/json.rs`, `src/serde_bridge.rs`: JSON as plain data, and what is taken from
  `serde_json`.
- `src/message.rs`: the messages between the two sides, and how the WebSocket sees them.
- `src/channel.rs`: the queues.
- `src/clients.rs`: the TCP clients that are connected.
- `src/session.rs`: the life of one TCP client.
- `src/dispatch.rs`: what the TCP side does with messages from the WebSocket.
- `src/websocket.rs`: the one WebSocket connection, and what comes in on it.
- `src/terminal.rs`, `src/text.rs`: the terminal client.
- `src/ambient.rs`: random names and the time of the clock.
- `src/laws.rs`: what holds of the bridge as a whole.
- `src/runs.rs`: what holds of whole runs of its parts, event after event.
- `app/`: the bridge, and a terminal client, which runs where the first argument is
  `tcp_client`.

The server listens for TCP clients on port 8080 and for the WebSocket on port 8081. The
length at the head of a frame counts its own four bytes on the server, and does not in the
terminal client.
