# gobcam

A goblin in your webcam: animated emoji reactions composited onto a
Linux webcam feed and written to a `v4l2loopback` device, driven from
stdin, a Unix socket, or a desktop panel.

## Layout

- `src/` — the library, verified with Verus: the wire types, the
  daemon's command line and GStreamer graph description, `v4l2-ctl`
  listing parsers, the reactor (slot pool, concurrency cap, eviction,
  timers), slot frame accounting, cascade curves, the asset catalog and
  cache layout, PNG/APNG decoding (through the `image` crate) and the
  decoded-animation LRU cache, safe mode, the panel's preferences and
  settings, and the daemon supervision steps.
- `tests/` — tests of the library on concrete values.
- `app/` — the daemon program around the library: GStreamer, HTTP
  downloads, sockets, threads, randomness and floating-point work
  (frame rates read from `v4l2-ctl`, cascade timing), plus the panel's
  supervision and persistence code.

Laws of the library are public proof functions named `law_*`.
