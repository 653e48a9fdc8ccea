# easyapi

A local forwarding proxy for the Responses API: clients talk to a fixed local
address with a local bearer token, and the user switches the upstream provider
(base URL, API key, extra headers) by hand.

- `src/` is the verified library (Verus): provider input validation, the
  header rules of the proxy (local authentication, hop-by-hop filtering, the
  upstream header list), provider runtimes and the switchable active provider,
  request counters and request log records, upstream error summaries, model
  list normalisation, the client configuration text, and body-recording
  bookkeeping.
- `app/` is the unverified shell: SQLite storage, the OS credential store,
  the HTTP server and the user-facing commands.
- `tests/` exercises the library on concrete values.
