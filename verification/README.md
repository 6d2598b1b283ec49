# Talos

A self-hosted alarm system. The library (`src/`) holds its logic, verified
with Verus: the alarm's state machine, the delay timers, sensor readings and
their BTHome v2 decoding, the sensor-to-zone mapping, the SIA DC-09 event
codes, the signing and checking of JSON Web Tokens, and the decisions the
HTTP API makes (which request gets which answer). The server (`app/`) is the
I/O around it: the Axum routes, SQLite storage, the clock, the Shelly
gateway websocket and the TCP link to a SIA receiver.

- `src/alarm.rs`, `src/alarm_laws.rs`: the state machine and the properties
  that span its operations.
- `src/timers.rs`: the exit/entry delay check.
- `src/sensors.rs`, `src/bthome.rs`: readings, mappings, scan results.
- `src/sia.rs`: what a state change is reported as.
- `src/api.rs`, `src/auth.rs`, `src/cors.rs`: request decisions, password
  hashing and tokens, allowed origins.
- `src/text.rs`: decimal rendering and parsing, string comparison.
