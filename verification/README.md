# pocket_scan

The verified core of a pocket barcode-scanner gadget that throws "pocket sand"
on a terminal dashboard, broadcasts each scanned payload over a Meshtastic radio
and posts it on X.

- `src/` is the library, verified with Verus:
  - `scanner` — key codes to characters, scanner device names, and the burst
    state machine that turns key events into `SandStart` and `Scan` reports;
  - `mesh` — cutting payloads to the radio's size on a character boundary,
    node labels, and reading received text messages;
  - `twitter` — percent-encoding, payload rewriting, OAuth 1.0a signing, the
    JSON body of a post, and the daily posting budget;
  - `home` — the dashboard state, what each action does to it, and what the
    screen shows;
  - `text` — character-level string building blocks with exact specifications.
- `app/` holds the I/O around it: the evdev device, the radio connection, HTTP
  requests, the clock, the environment and the ratatui drawing.
- `tests/` exercises the library on concrete values.
