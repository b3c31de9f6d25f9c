# client_binding

Client binding status for a native Nostr client: the relay-signed bootstrap of a
connection, the session that folds reserved relay frames into a browser-visible
projection, and the rules of the native WebSocket around them.

- `src/` is the library. Every function states what it returns or changes, and
  Verus proves it.
  - `client_binding_bootstrap`: the epoch, the bootstrap payload, signing and
    validation.
  - `client_binding_status_session`: the fold of bootstrap and status frames.
  - `projection`, `registry`, `rounds`, `connection`, `messages`, `commands`: who owns the
    projection, which connections are open, and what each event of a connection
    leads to.
  - `relay_identity`: the relay's signing key from its NIP-11 document.
  - `event`, `community`, `json`, `text`, `counter`: what the others are built on.
- `app/` holds sockets, channels, tasks and the HTTP request.
- `tests/` runs the library with the crates that it calls.

What the library takes from other crates on trust stands in functions marked
`external_body`; the comment above each says what is claimed.
