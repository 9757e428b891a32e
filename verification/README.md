# opencode2api

A bridge between chat clients and an OpenAI-compatible upstream provider that
routes requests through a pool of egress proxies. This crate is the verified
core of the bridge: each function in `src/` carries a contract that Verus
proves.

- `src/proxy_pool/` — the egress pool: node state (health, circuit, rate-limit
  quarantine, identity, leases), round-robin routing with protected warm
  standbys, failure and recovery bookkeeping, restart decisions, exit-identity
  consensus, the reconcile cycle, snapshots, and the laws that hold across the
  operations (`laws.rs`).
- `src/retry/` — failure classification, backoff, model fallback lists, the
  retry loop as a state machine (`machine.rs`), and route selection.
- `src/sanitize.rs` — leaked-tag stripping and DSML tool-call extraction that
  stays inert inside code fences, inline code and quotes.
- `src/search/` — query and result types, the HTML and JSON result readers, the
  provider fallback chain and the scrapers' redirect rule.
- `src/openai.rs`, `src/output.rs`, `src/presentation.rs`, `src/tui.rs`, `src/pidfile.rs`,
  `src/runtime.rs`, `src/rest_api.rs`, `src/ip.rs`, `src/text.rs` — request
  repairs, command output, width-aware layout, the PID file, runtime paths,
  management-API checks, IP addresses and the text toolkit the rest is built on
  (`src/tui.rs` strips terminal escape sequences and pads to a display width).

`app/` is the unverified shell around the library: argument parsing, the HTTP
and TCP traffic, timers, files, and the serde/clap forms of the library's
records. `tests/` exercises the library from outside.
