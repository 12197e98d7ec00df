# wirecache

An in-memory cache server with a compact binary TCP protocol, whose core is
verified with Verus.

- `src/` — the verified library:
  - `protocol/` — request frames (`command.rs`: opcodes, `parse_frame`),
    client-side request builders (`codec.rs`), response frames
    (`response.rs`), big-endian helpers (`wire.rs`). The laws proved there:
    every frame the builders write parses back to its command and takes
    exactly its own length, whatever follows it; every proper prefix of a
    frame is incomplete; a parse reads only its own frame.
  - `cache/` — the counters (`stats.rs`) and the store (`store.rs`): a moka
    cache with per-entry time-to-live (a SET applies its own), modelled as a
    map from keys to values that a read may miss (eviction, expiry) but
    never contradicts, together with the capacity the cache was built with.
  - `server/handler.rs` — dispatch of a command against the store and the
    per-connection session: the bytes received so far and the next step.
    The law proved there: however a stream of whole frames (any whole
    frames, fields that a command ignores included) is split into reads,
    the commands are served in order, each once its frame has wholly
    arrived, and nothing is served from trailing bytes that hold no whole
    frame.
  - `metrics/printer.rs` — the moves of the counters between two panels,
    and over every panel.
  - `config/config_file.rs` — the settings and their defaults.
  - `text.rs` — decimal and hex digits.
- `app/` — the server around it: TOML loading, the tokio listener and
  connection loop, logging, the metrics panel, and the floating-point hit
  rate.
- `tests/` — tests of the library on concrete values.
