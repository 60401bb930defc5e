# waterpi-sprinkler

Watering controller for a Raspberry Pi driving buried valves through a relay
board, controlled from Home Assistant over REST, with optional GPIO switches,
pulse meters and a 128x64 OLED status panel.

## Layout

- `src/` — the library, written in Verus:
  - `config.rs`: configuration types, defaults, and `Config::validate`
    with a proof that it accepts exactly the coherent configurations;
  - `sprinkler.rs`: the valve controller as a state machine — each request
    is a step from state and clock reading to next state, reply and the
    ordered list of effects (relay pins, safety timers, state files, status
    pushes); laws on the mutex, idempotence and persistence;
  - `clock.rs`: clock readings, RFC 3339 timestamps (via chrono), state files;
  - `switch.rs`, `meter.rs`: GPIO inputs;
  - `ha.rs`, `api.rs`: Home Assistant endpoints and REST refusals;
  - `display.rs`: view selection, layout as drawing operations, render-loop
    retry and logging decisions;
  - `weather.rs`: French weather labels;
  - `text.rs`: character-level helpers.
- `app/` — the daemon around it: TOML loading, GPIO and I2C access, the
  HTTP server and client, timers, the render loop and the weather poller.
- `tests/` — tests of the library.
