# jalert_receiver

A J-ALERT receiver and display core, verified with Verus. It subscribes to the
JSONL telegrams an SDR# decoder plugin sends over TCP (or replays a `.jsonl`
file), classifies each telegram, keeps the live alert channels and the
mailbox, shows a kiosk display (standby ↔ full-screen alert) and the
management screens in a window, and can serve them over HTTP, optionally
through a cloudflared quick tunnel.

## Layout

- `src/` — the verified library
  - `text.rs`: character-level string operations and decimal numbers, with
    specifications over `Seq<char>`
  - `xml.rs`, `json.rs`: the XML node model and the JSON member lookups, over
    `roxmltree` and `serde_json`
  - `model.rs`: telegram types, categories, severities, channels, mailbox items
  - `classify.rs`: JSONL line / raw JMA XML → alert channel; weather grading
  - `state.rs`: the state store (channels, mailbox, counters, display rules)
    and its laws
  - `web.rs`: request routing, query strings, the JSON API's severity
    numbers, the cloudflared URL
  - `source.rs`, `config.rs`: feed naming, replay files, run settings
  - `ui.rs`: login roles and tabs, front-panel lamps, mailbox rows and search,
    kiosk screens, time texts
- `app/` — the program: settings from the environment, the TCP / replay feed,
  the window (eframe/egui: kiosk display and management screens), the HTTP
  server and the cloudflared process
- `tests/` — tests of the library

## Run

```sh
jalert-receiver --source-host 127.0.0.1 --source-port 7355 --web
jalert-receiver --replay path/to/decoded.jsonl --replay-interval 800 --web
jalert-receiver --cloudflared
```

Environment: `JALERT_SOURCE_HOST`, `JALERT_SOURCE_PORT`, `JALERT_WEB_PORT`,
`JALERT_CLOUDFLARED`, `JALERT_CLOUDFLARED_BIN`.
