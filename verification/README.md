# tg_check

The connectivity check of a Telegram WebSocket proxy: before the proxy serves
clients, every Cloudflare domain, Worker and upstream MTProto proxy, and on
request the proxy's own listener, is probed.

- `src/` is the verified library. It decides and does no I/O: a check and each of
  its probes are state machines with an `action` to carry out and a `handle` for
  what came of it. Contracts fix every action, transition and printed character;
  `law_*` proof functions state what holds of whole runs.
- `app/` carries a check through on tokio, over a `Network` that the rest of the
  proxy provides.
- `tests/` runs the library on concrete values.
