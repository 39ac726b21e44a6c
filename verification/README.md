# networkinator

A small networking layer for Bevy applications, split in two:

- `src/` is the library, verified with Verus:
  - `port_systems::read_writer_tcp`: length-prefixed frames on a byte stream
    (header kinds, byte orders, reading and writing header values, taking
    complete frames off a receive buffer), with the laws that a written frame
    reads back whole and that frames arriving in pieces read as they would
    all at once.
  - `port_systems::inject_extract_uuid`: a 16-byte UUID in front of a payload.
  - `plugins::messaging`: which parts of the messaging plugin each network role
    sets up, what registering a message type does, the registry of message
    ids, the wire form of a message envelope (written and read with
    `postcard`), and the routing of received envelopes to their types.
  - `client::wasm_websocket`: the state machine of the browser WebSocket
    client port and the steps of its reading and writing tasks.
- `app/` holds what the verifier does not see: the Bevy plugin and systems,
  the asynchronous TCP writer, the browser WebSocket port with its channels
  and tasks, and the floating-point header values.
- `tests/` runs the library on concrete values.
