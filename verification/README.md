# funnel

The client and wire protocol of funnel, a self-hosted tunneling service,
written as a Verus library whose behaviour is stated in `requires` /
`ensures` contracts and proved.

## Layout

- `src/` — the verified library.
  - `protocol/` — frames (length-prefixed, with a size limit), request and
    response metadata, tunnel handshakes and their answers, error codes.
  - `tunnel/` — tunnel identifiers (DNS labels) and their generation.
  - `api/` — the management API's types, endpoints and response envelopes.
  - `auth/` — API key generation and hashing.
  - `client/` — configuration contexts and their resolution, the command
    helpers and listings, the forwarding rules (hop-by-hop headers, idle
    connection pool), the reconnect policy, and the request inspector's
    log, filters, HAR export, replay and body views.
  - `text.rs`, `strmap.rs` — verified string helpers and an ordered string
    map used for headers and contexts.
- `tests/` — tests of the library, run against the compiled crate.
- `app/` — the `funnel` command: argument parsing, files, the network
  (QUIC, HTTP, the inspector's web server), serde encodings and terminal
  output, all calling into the library for the decisions.

Calls into outside crates (`http`, `url`, `base64`, `sha2`, `hex`,
`getrandom`, `serde_json`) go through small trusted wrappers whose
contracts say what the crate's documentation or source promises.
