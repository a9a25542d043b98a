# volt_client

A terminal client for Volt chat servers.

- `src/` is the client's logic as a verified library. It holds the state of the client, what keys,
  messages and the terminal do to it, what it asks of the world around it, and what its screens
  show. Every function states what it returns; `src/laws.rs` states what holds of the client as a
  whole.
- `src/outside.rs` and the wrappers in `src/json.rs` are the places where the library calls other
  crates. Their contracts are taken on trust.
- `app/` is the program: the terminal, the connections, the settings file, the clipboard and the
  log. It does what the library asks for and hands back what happened.
- `tests/` runs the library.

The library never waits. A step takes what has happened and returns effects; the program performs
them in their order.
