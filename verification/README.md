# lol_plugin

A tray-resident helper for the League of Legends client on Windows: it finds
the running client, reads its API credentials from the process command line,
accepts every ready check through the client API, and sends `/fullmute all`
into the game once it has started.

Layout:

- `src/` — the verified library (Verus). Command-line parsing, credential
  discovery and merging, the ready-check worker as a state machine, the
  live-client and foreground waits before muting, keyboard input planning,
  BMP encoding, log line formatting, tray message dispatch. Laws that span
  several calls stand as public proof functions named `law_*`.
- `app/` — the Windows program around it: HTTP requests, process and window
  queries, `SendInput`, GDI screenshots, files, threads and the tray icon.
  It performs the actions the library decides and hands back what it saw.
- `tests/` — tests of the library on concrete values.
