# yral_multi_service

The event-ingestion logic of the YRAL multi-service backend, verified with Verus.

- `src/` is the verified library: snake_case conversion of event names, the per-request
  view-count cache, reading stored counts, the signed view-count upload to the
  recommendation service, bearer-token extraction and handler responses, notification
  and device-registration endpoints, and the configuration-derived service state.
- `app/` is the HTTP service around it (axum handlers, the key-value store, outgoing
  requests, the OpenAPI description); it is ordinary Rust and is not verified.
- `tests/` exercises the library on concrete values.
