# corp

The verified core of the Corp game services, written in Verus.

- `src/` is the library. Every function in it is verified, except the
  trusted wrappers marked `#[verifier::external_body]`, which call `bcrypt`,
  `uuid`, `rand` and two std functions (`str::to_lowercase`, collecting
  characters into a `String`); their contracts are assumed:
  - `text`: character-level text operations (trimming, prefixes,
    substrings, code point order) with their specifications;
  - `migrations`: which scripts of the login database's migrations
    directory run, in which order, and the statements each script holds;
  - `colony`, `routes`, `proxy`: the colonies, the proxy's routing table,
    how a WebTransport session is routed, when a transport error means that
    a connection is gone, the forwarding loops' decisions and the life
    cycle of a proxied connection;
  - `login`: the request rules and answers of the login service, password
    hashing with bcrypt and token issuing;
  - `assets`, `client`: the client's asset catalogues and its
    engine-independent decisions (input bindings, the double tap that quits,
    scene objects, travel and spawning).
- `app/` runs the services around the library: the proxy (`wtransport`,
  `tokio`) and the login server with its migration tool (`axum`, `sqlx`).
  `app/main.rs` picks the service from its first argument: `proxy`,
  `migrate`, or the login server by default.
- `tests/` exercises the library on concrete values.
