# with-async-context

Context data for async tasks: a value made visible to the code of one future
while that future is polled, and a logger that writes each record with the
visible context.

- `src/` is the verified library (Verus).
  - `context.rs`: the per-thread registry of contexts and the two steps of a
    poll (`begin_poll`, `finish_poll`), the accessors `from_context`,
    `from_context_mut` and `context_as_string`, and the laws of the poll
    protocol.
  - `logger.rs`: log levels, the threshold read from `RUST_LOG`, the line
    format with `{level}`, `{context}` and `{message}` placeholders, and its
    laws.
  - `text.rs`: placeholder substitution and its lemmas.
- `app/` holds what Verus does not check: the thread-local registry, the
  `Future` that wraps a future with its context, the lookup of a context by
  its type, the `log::Log` implementation and the `init_context_logger!`
  macro.
- `tests/` drives the registry through the polls that an executor would make.
