# chx

An in-memory key-value cache with a line-based TCP protocol, a server whose
entries expire after a global time to live, and an interactive client.

- `src/` is the verified library:
  - `text.rs`: Unicode white space, trimming, splitting at a separator, and
    the lossy UTF-8 decoding of received bytes;
  - `error.rs`: `ChxError`, its displayed text and its conversions;
  - `client.rs`: the request lines (`G key`, `S key value`, `D key`) and how a
    reply (`>data`, `!`, `!e` + message) is read;
  - `server.rs`: how the server reads a request, and `CacheStore`, the store
    whose every reply and update is stated over a map of keys to entries;
  - `repl.rs`: how the interactive client reads a typed line, and what it
    prints and does after each command;
  - `laws.rs`: what holds of client and server together, such as that a GET
    returns what the last SET stored until the entry expires.
- `app/` holds the command line, the TCP server loop and the network client.
