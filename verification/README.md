# bse — Brainstorm Shared Environment, verified core

BSE is a real-time collaborative brainstorming canvas : a desktop client
and a self-hostable collaboration server. This crate holds the decisions
of both sides as a library verified with Verus, and the program around it.

## Layout

- `src/` — the verified library.
  - `color`, `ids` : RGBA colours (packing laws) and the UUID-based
    identifiers (text form, parsing, freshness of generated ids).
  - `text` : the character-level helpers the rest relies on (blank text,
    ASCII lower-casing, sub-string and word-prefix search).
  - `ui` : the command palette (ranking, keyboard navigation, one frame
    of interaction), status-bar pill, theme variants and pill colours.
  - `sync` : client connection state, errors, cursor throttle, the room
    URL and the handling of each received frame.
  - `server` : the room broadcast registry, the account directory, the
    stored rows and schema migrations, the HTTP request decisions (who
    is refused, with which status and message), the CORS policy and the
    per-connection WebSocket loop.
  - `storage` : the local snapshot store interface and the clock-based
    timestamp.
- `tests/` — tests of the library, run against the real outside crates.
- `app/` — the server binary and the parts that cannot be verified : the
  SQLite queries, axum routing and handlers, the WebSocket client, serde
  and bytemuck copies of library types, and the `f32` geometry, quadtree,
  colour-space and easing code.
