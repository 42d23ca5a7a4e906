# auth_service

An authentication service (register, login, profile, JWT bearer tokens) with a request
log that redacts secrets, a Kafka worker mode and a scheduler mode.

- `src/` is the library, verified with Verus: configuration parsing, request validation,
  token signing and reading, the register/login/profile decisions, log redaction and the
  log record, and what the worker logs of a message. Calls into outside crates stand
  behind small trusted functions whose contracts are stated next to them.
- `app/` is the program around it: environment and `.env` loading, the axum server and
  middleware, MongoDB/MySQL repositories, Redis, Kafka and the cron scheduler.
- `tests/` exercises the library with the real outside crates linked.
