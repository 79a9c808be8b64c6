# openbrowser

The verified core of the OpenBrowser agent runtime, written in Verus.

- `src/` is the library. Every function in it is verified against its
  `requires`/`ensures` contract: capability policy and delegation checks,
  credential handles, resource quotas and the worker pool, the execution state
  machine, scheduler bookkeeping, replay sequencing, adapter selection and the
  adapters' policy gates, the semantic capabilities, DOM trees (building,
  querying, mutating without cycles), the CSS selector subset, cookie parsing,
  HTTP request and response values.
- `tests/` exercises the library on concrete values.
- `app/` is the executable around it: the tokio scheduler loop, the reqwest
  HTTP client, html5ever's tree sink driving the DOM builder, the async adapter
  and capability interfaces, tracing and the replay file.

Calls into std and outside crates (the system clock, random identifiers and
bytes, UTF-8 decoding, JSON string quoting, HTTP token checks, cancellation
tokens) go through small trusted wrappers
whose contracts are documented next to them.
