# progressbox

Monitoring for MQTT brokers: an agent that follows each broker's `$SYS` topics,
raises threshold alerts (stored, persisted and mailed) and answers an internal
HTTP API, and a gateway that authenticates, rate-limits and forwards the
read-mostly part of that API.

- `src/` is the verified library: the alert store and its filters,
  cooldowns, rule evaluation and reloads, folding `$SYS` updates into a
  broker's record, the `/metrics` and `/brokers` answers (byte-wise sorted),
  the history request and its Flux query, and the gateway's routing, API-key
  and forwarding decisions, with the text primitives they rest on.
- `app/` holds the services around it: axum handlers, the MQTT and alert
  loops, SQLite, SMTP, InfluxDB, the reverse proxy and the OpenAPI document.
- `tests/` exercises the library on concrete values.

Floating-point readings cross the library as `f64::to_bits` patterns; the
comparisons of readings with thresholds and their printing stay in `app/`.

The alert cooldowns are a `dashmap::DashMap` inside the library's
`CooldownTable`, changed only through `&mut` (see its doc comment); the
metrics store and the broker registry are `DashMap`s in `app/`, and the
library works on snapshots and entries of them.
