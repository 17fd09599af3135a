# broadcast_chat

A websocket chat in which a server relays every message to all connected
clients, a terminal client prints what it receives, and a web client keeps a
chat room.

- `src/` is the verified library: the JSON wire format (`json`, `protocol`),
  the clock that stamps messages (`clock`), the server's registry of users
  (`registry`), the server's reaction to each connection event (`server`),
  the terminal client's rendering (`client`) and the web client's room model
  (`webchat`).
- `app/` holds the programs: `broadcast_chat server` and
  `broadcast_chat client`. They own the sockets, the broadcast channel and
  the reading of JSON into the library's types, and hand every decision to
  the library.
- `tests/` runs the library on concrete values.
