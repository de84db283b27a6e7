# torwell84

The logic of the Torwell84 desktop Tor client as a Verus-verified library,
with the desktop shell around it.

- `src/` is the library. Every function there carries a `requires`/`ensures`
  contract that Verus proves. It covers route and country selection, torrc
  profiles and bridges, transport policy (HTTP allow-list, HSTS, URL
  normalisation), certificate update planning, sessions and isolation tokens,
  reconnect backoff, the connection timeline and health summary, logs and
  metrics trimming, the tray menu and status messages, SOCKS parsing, system
  proxy commands, worker rotation, the shader cache index, frame-time
  percentiles and the renderer's frame ring. The `law_*` proof functions state properties across calls.
- `tests/` exercise the library on concrete values.
- `app/` is ordinary Rust: the Tauri application, Tor client glue, HTTP client
  and TLS setup, file and network I/O, threads, the GPU renderer and the
  remaining floating-point work. It calls the library for every decision it makes.
