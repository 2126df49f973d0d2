# npm-docker-sync

Watches Docker container labels and keeps the proxy hosts of Nginx Proxy
Manager (NPM) in sync with them: a labelled container gets a proxy host, a
removed container loses it, and hosts this service did not create are never
touched.

## Layout

- `src/` is the library, verified with Verus:
  - `docker/`: reading `nginx_proxy_*` labels into a container spec, turning
    `docker inspect` answers into label facts, and the event watcher's
    decisions (which events matter, how long to wait before reconnecting).
  - `npm/`: the NPM data model, the ownership marker stored in a host's
    `meta`, and NPM errors.
  - `writer/`: the writer as a state machine (intent in, NPM actions out),
    the diff between a host and a spec, and the retry policy.
  - `reconciler/`: the periodic sweep that plans upserts and removals.
  - `cloudflare.rs`: which Cloudflare token serves a domain.
  - `config/`: validation and secret resolution of the configuration.
  - `keymap.rs`, `text.rs`: a string-keyed map and the text helpers the
    rest relies on.
- `app/` is the service around it: configuration file, HTTP and Docker
  clients, the async loops that perform the writer's actions, logging and
  metrics.
- `tests/` runs the library on concrete inputs.
