# horus

A monitor for the containers of a local Docker-compatible runtime: it samples
each container's state on a fixed interval, keeps a bounded history per
container, and draws a dashboard of recent uptime.

- `src/` is the verified library: the domain model and how runtime state
  texts are read (`domain`), the bounded per-container sample store and the
  laws it keeps across calls (`store`, `store_laws`), configuration defaults
  and validation (`config`), turning a runtime's listing entry into a
  container (`runtime`), one round of polling (`poller`), the dashboard's
  bars and rows (`web`) and character-level text handling (`text`).
- `app/` is the program around it: configuration loading, the Docker
  adapter, the polling task, the shared locked store and the HTTP dashboard.
- `tests/` exercises the library on concrete values.
