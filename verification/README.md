# flowdesk

The logic of a Tauri front-end for a Barrier-compatible keyboard and mouse
sharing server, written in Verus and verified against its contracts.

- `src/config.rs`: the server configuration model (screen grid, screens,
  options) and grid reconciliation.
- `src/barrier_text.rs`: the barrier text format read by `barriers -c`,
  specified section by section, with grid adjacency and its laws.
- `src/logparse.rs`: interpretation of the server's stdout lines (level,
  message, state changes, TLS fingerprint prompts).
- `src/supervisor.rs`: command-line arguments, binary lookup, and the
  lifecycle decisions of the process supervisor.
- `src/settings.rs`: application settings and their paths.
- `src/tray.rs`: the tray tooltip, the tray menu and what each menu choice
  or click on the icon asks for.
- `src/network.rs`, `src/macos.rs`: local address listing and the
  accessibility gate.
- `app/`: the Tauri program around the library (process handling, JSON
  persistence, tray, commands).
