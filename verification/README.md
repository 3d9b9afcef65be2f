# discord_keep_alive

Keeps Discord accounts online, with an optional status, custom status and
rich presence. The decisions of the program are a library whose contracts
are proved by Verus; a thin binary around it does the I/O.

## Layout

- `src/` — the verified library.
  - `config/` — keyed configuration layers: field catalog, ids and leaf
    paths, environment keys, `--set`/`--account-set` command-line paths,
    the file layer, merging (later layer wins leaf by leaf), resolution into
    accounts, and loading with precedence CLI > environment > file >
    defaults.
  - `indexed/` — the positional configuration layers (flat account plus
    `ACCOUNT_{i}_…` / `ACTIVITY_{j}_…` keys), merged by position.
  - `presence/` — activity, custom status and presence payloads, image and
    emoji normalisation, pinned timestamps.
  - `gateway/` — opcodes and payload data, identify properties, heartbeat
    ticks, reconnect backoff, and the session decisions on each inbound
    payload and close.
  - `health.rs` — account liveness and the health probe protocol.
  - `render.rs`, `show.rs` — debug renderings with the token shown as
    `<redacted>`.
  - `adapt.rs`, `logfmt.rs` — session parameters from a resolved account,
    presence summaries and log line formatting.
- `app/` — the program: argument parsing, reading the config file and the
  environment, the WebSocket session loop, the health socket and logging.
- `tests/` — tests of the library.
