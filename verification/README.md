# pipo — Matrix transport

`src/` is the verified library:

- `token` — access tokens: thirty-two random bytes written as lower-case hex.
- `http` — the application-service endpoints, the homeserver bearer check and
  the decision on each request (404 / 403 / 405 / served), with its laws.
- `serve` — reading an admitted request as the endpoint's Matrix request
  (ruma, behind trusted wrappers) and the reply it gets.
- `matrix` — channel selection, claimed namespaces and the registration the
  transport runs with.
- `transaction` — which channels each pushed text message is sent to.
- `pipolog` — log lines.

`app/` runs it: the axum server, reply rendering, reading pushed events,
file and bus I/O, and logging.
