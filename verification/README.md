# findIT

findIT discovers the services of the Chalmers IT Student Division: running
Docker containers that carry `findit.*` labels, and services added by hand in
an admin panel. It groups them by category for a dashboard.

## Layout

- `src/` — the verified library (Verus):
  - `server/services.rs` — turning container labels and manual records into
    services, and grouping them into categories sorted by name, each sorted
    stably by title;
  - `server/cache.rs` — the Docker cache's decisions: fresh for a time to
    live, stale or empty during a retry window after a failure;
  - `server/admin.rs` — validation of the admin forms and icon uploads, and
    the messages of their errors;
  - `server/auth.rs` — login destinations, random tokens, the session
    cookie's key and attributes, the authorization URL;
  - `server/db.rs`, `db.rs` — icon file names and paths, token hashes, row
    mapping, the SQLite file path;
  - `config.rs` — settings from `.env` and the environment, with defaults
    and validation;
  - `components/` — the client's helpers: category anchors, the checks of
    the service and icon forms, form fields;
  - `text.rs`, `number.rs`, `order.rs`, `str_map.rs` — verified string,
    number, ordering and map building blocks.
- `app/` — the server program: configuration loading, SQLite, Docker, the
  OpenID Connect sign-in, the shared cache's locks and the HTTP routes.
- `tests/` — tests of the library.

The web interface (the dashboard, header and admin pages, written with
Dioxus) is not part of this crate: Dioxus is not among its dependencies, so
`app/` serves the JSON API, the sign-in routes and the icons only.  The
decisions those pages make (anchors, form checks) are in `components/`.
