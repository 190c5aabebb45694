# r2_composer

The workstation orchestrator of r2-composer: it keeps the device roster of
an apiary, flashes boards over USB, pushes firmware over the network,
provisions devices into the apiary's trust group and runs coding-assistant
sessions for the webapp's build and chat panes.

## Layout

- `src/` — the library, verified with Verus. Every decision the
  orchestrator takes lives here with its contract: FNV-1a event hashing
  and the event-name registry, beacon parsing and tracking, the roster
  state machine and the roster, deploy, provision, author, builder and
  test-coordinator sentants, the delivery ledger, OTA and flasher
  protocol steps, WiFi network bookkeeping, trust-group state files,
  `/r2` authentication, calendar arithmetic and UTF-8 text chunking.
  Calls into `hex`, `sha2`, `ed25519-dalek` and `uuid` go through small
  trusted wrappers whose contracts say what those crates do.
- `tests/` — tests of the library on concrete values.
- `app/` — the program around it: command-line arguments, the axum HTTP
  and WebSocket server, reading and writing files, and the workers that
  run esptool, push images over TCP and drive the assistant subprocess.
  Each connection runs the roster, deploy, builder and author sentants
  and starts the workers they ask for.

## Running

```
r2-composer --apiary rocker-rig --session-program <assistant> [--assistant-name <name>]
```

Then open `http://127.0.0.1:21050/webapp/index.html`.
