# app_controller

A REST service that runs interactive (X11) apps as groups of containers, on
Kubernetes or on a Docker daemon, and a library that holds its decisions,
verified with Verus.

Layout:

- `src/` — the verified library.
  - `types.rs`: the app model (configurations, containers, statuses) and
    their mathematical views.
  - `text.rs`: decimal and hexadecimal formatting, number parsing, string
    helpers.
  - `labels.rs`: string maps (container labels, Kubernetes annotations) and
    how an app's containers are written into them and read back.
  - `backend/`: the errors, the null and mock backends, and the decisions of
    the Docker and Kubernetes backends: what to create for an app (as a plan
    that names every container, volume and resource), how to read an app
    back from what the cluster lists, how to order and pick containers.
  - `api.rs`: which create requests are accepted and how they are
    normalized, and how each backend result is answered.
- `app/` — the server: HTTP handlers, the Docker and Kubernetes clients that
  carry out the library's plans, and `main`.
- `tests/` — tests of the library on concrete values.
