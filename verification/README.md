# logitech_widget

Battery monitoring for Logitech mice, keyboards and headsets, verified with
Verus. The library (`src/`) holds the protocol and decision logic with
contracts; `app/` is the Tauri desktop widget around it (hidapi and G HUB
I/O, the polling thread, window behaviour).

Layout of `src/`:

- `proto.rs` — HID++ request encoding, reply matching and battery/codename parsers.
- `probe.rs` — the probing sequence for one physical device, as a state machine
  driven by the caller's request/reply transactions.
- `transport.rs` — which HID collections are HID++ channels, grouping of
  collections into devices (group keys via `regex-lite`), channel choice,
  and what a received report answers.
- `pairing.rs` — collapsing of stale receiver pairings.
- `battery.rs` — the shared device entry, the source trait and the merge of a
  fallback source into the primary one.
- `ghub.rs` — reading the G HUB agent's JSON messages (through `serde_json`)
  and the decisions of the G HUB fallback source.
- `poller.rs` — merging all sources and the low-battery notification decisions.
- `settings.rs`, `window.rs`, `text.rs` — settings defaults, the Show Desktop
  veto, and character helpers.

Properties that relate several calls or hold of every state are stated as
public proof functions named `law_*` in the module they concern (`proto`,
`probe`, `transport`, `pairing`, `battery`, `ghub`, `poller`).
